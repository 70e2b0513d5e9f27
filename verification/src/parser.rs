//! The directive-resolution pipeline over a markdown document.
//!
//! [`scan_directives`] finds every directive occurrence in a document.  The
//! caller (which alone touches the file system) reads the file each
//! occurrence names and hands the contents to [`process_markdown`], which
//! substitutes every occurrence: with the rendered snippet when the
//! directive resolves, else with a one-line diagnostic of the form
//! `<relative-path>:<line>:<column>: <message>`, so a failure is visible in
//! the output without aborting the run.  No directive's failure affects any
//! other directive.

use vstd::prelude::*;
use vstd::string::StrSliceExecFns;
use vstd::string::StringExecFns;

use crate::directive::parse_directive_args;
use crate::directive::parse_directive_spec;
use crate::directive::Directive;
use crate::directive::DirectiveModel;
use crate::error::ErrorModel;
use crate::error::SnippetError;
use crate::formatter::body_spec;
use crate::formatter::dedent;
use crate::formatter::dedent_spec;
use crate::formatter::format_function_body;
use crate::formatter::format_item;
use crate::formatter::format_method;
use crate::formatter::format_method_body;
use crate::loader::parse_result;
use crate::loader::parse_source;
use crate::locator::find_enum;
use crate::locator::lemma_first_entry_props;
use crate::locator::first_method_anywhere;
use crate::locator::method_spec_parts;
use crate::locator::parse_method_spec;
use crate::locator::resolve_free;
use crate::locator::FreeResolution;
use crate::model::ItemKind;
use crate::output::compose_spec;
use crate::output::Output;
use crate::output::OutputModel;
use crate::text::str_eq;
use crate::locator::find_item_spec;
use crate::locator::find_method;
use crate::locator::find_method_spec;
use crate::locator::find_struct;
use crate::locator::find_struct_impl;
use crate::locator::find_trait;
use crate::locator::find_trait_impl;
use crate::locator::Matcher;
use crate::model::ItemModel;
use crate::model::ParsedSource;
use crate::text::dec_digits;
use crate::text::find_char_from;
use crate::text::find_sub_from;
use crate::text::last_match_before;
use crate::text::matches_at;
use crate::text::next_match;
use crate::text::next_pos;
use crate::text::rfind_sub;
use crate::text::starts_with_at;
use crate::text::substring_copy;
use crate::text::trim_spec;
use crate::text::trim_ws;
use crate::text::usize_to_string;
use crate::text::views_of;

verus! {

// ---------------------------------------------------------------------------
// Line and column bookkeeping
// ---------------------------------------------------------------------------

/// The positions at which the lines of `s` start, from index `p` on.
pub open spec fn starts_from(s: Seq<char>, p: int) -> Seq<int>
    decreases s.len() - p,
{
    if p < 0 || p >= s.len() {
        Seq::empty()
    } else if p == 0 || s[p - 1] == '\n' {
        seq![p] + starts_from(s, p + 1)
    } else {
        starts_from(s, p + 1)
    }
}

/// The start position of every line of `s`.
pub open spec fn line_starts_spec(s: Seq<char>) -> Seq<int> {
    starts_from(s, 0)
}

/// Collects the start position of every line of `s`.
pub fn line_starts(s: &str) -> (r: Vec<usize>)
    ensures
        r@.map_values(|u: usize| u as int) == line_starts_spec(s@),
{
    let n = s.unicode_len();
    let mut out: Vec<usize> = Vec::new();
    let mut p: usize = 0;
    proof {
        assert(out@.map_values(|u: usize| u as int) =~= Seq::<int>::empty());
    }
    while p < n
        invariant
            n == s@.len(),
            p <= n,
            line_starts_spec(s@) =~= out@.map_values(|u: usize| u as int) + starts_from(
                s@,
                p as int,
            ),
        decreases n - p,
    {
        let is_start = p == 0 || s.get_char(p - 1) == '\n';
        if is_start {
            proof {
                assert(out@.push(p).map_values(|u: usize| u as int) =~= out@.map_values(
                    |u: usize| u as int,
                ).push(p as int));
            }
            out.push(p);
        }
        p += 1;
    }
    out
}

/// The last line index whose start is at or before `pos` (zero when
/// there is none).
pub open spec fn last_le_idx(starts: Seq<int>, pos: int) -> int
    decreases starts.len(),
{
    if starts.len() == 0 {
        0
    } else if starts.last() <= pos {
        starts.len() - 1
    } else {
        last_le_idx(starts.drop_last(), pos)
    }
}

proof fn lemma_last_le_idx(starts: Seq<int>, pos: int, k: int)
    requires
        0 <= k < starts.len(),
        starts[k] <= pos,
        forall|j: int| k < j < starts.len() ==> starts[j] > pos,
    ensures
        last_le_idx(starts, pos) == k,
    decreases starts.len(),
{
    if starts.len() > 0 && starts.last() > pos {
        assert(starts.drop_last()[k] == starts[k]);
        lemma_last_le_idx(starts.drop_last(), pos, k);
    }
}

/// The one-based line and column of character position `pos`, given the
/// line start positions.
pub open spec fn line_col_spec(starts: Seq<int>, pos: int) -> (int, int) {
    let idx = last_le_idx(starts, pos);
    (idx + 1, pos - starts[idx] + 1)
}

/// Finds the one-based line and column of `position`: the last line whose
/// start is at or before it, and the offset inside that line.
pub fn find_line_and_col(line_positions: &Vec<usize>, position: usize) -> (r: (usize, usize))
    requires
        line_positions@.len() > 0,
        line_positions@[0] <= position,
        position < usize::MAX,
    ensures
        (r.0 as int, r.1 as int) == line_col_spec(
            line_positions@.map_values(|u: usize| u as int),
            position as int,
        ),
{
    let ghost starts = line_positions@.map_values(|u: usize| u as int);
    let n = line_positions.len();
    let mut line_idx: usize = 0;
    let mut idx: usize = 0;
    while idx < n
        invariant
            starts == line_positions@.map_values(|u: usize| u as int),
            n == starts.len(),
            0 < n,
            idx <= n,
            line_idx < n,
            starts[0] <= position,
            starts[line_idx as int] <= position,
            forall|j: int| line_idx < j < idx ==> starts[j] > position,
            idx > 0 ==> line_idx < idx,
        decreases n - idx,
    {
        if position >= line_positions[idx] {
            line_idx = idx;
        }
        idx += 1;
    }
    proof {
        lemma_last_le_idx(starts, position as int, line_idx as int);
    }
    let line_num = line_idx + 1;
    proof {
        assert(starts[line_idx as int] == line_positions@[line_idx as int]);
    }
    let col_num = position - line_positions[line_idx] + 1;
    (line_num, col_num)
}

// ---------------------------------------------------------------------------
// The document scanner
// ---------------------------------------------------------------------------

/// Does one of the known directive kinds, with its bang, stand at `p`?
pub open spec fn known_kind_at(s: Seq<char>, p: int) -> bool {
    ||| matches_at(s, p, "source_file!"@)
    ||| matches_at(s, p, "function!"@)
    ||| matches_at(s, p, "function_body!"@)
    ||| matches_at(s, p, "struct!"@)
    ||| matches_at(s, p, "enum!"@)
    ||| matches_at(s, p, "trait!"@)
    ||| matches_at(s, p, "impl!"@)
    ||| matches_at(s, p, "trait_impl!"@)
}

/// Executable test for [`known_kind_at`].
fn known_kind_exec(s: &str, p: usize) -> (r: bool)
    requires
        p <= s@.len(),
    ensures
        r == known_kind_at(s@, p as int),
{
    starts_with_at(s, p, "source_file!") || starts_with_at(s, p, "function!") || starts_with_at(
        s,
        p,
        "function_body!",
    ) || starts_with_at(s, p, "struct!") || starts_with_at(s, p, "enum!") || starts_with_at(
        s,
        p,
        "trait!",
    ) || starts_with_at(s, p, "impl!") || starts_with_at(s, p, "trait_impl!")
}

/// Does a directive occurrence open at `p`: a line start holding `#![`
/// followed by a known kind and its bang?
pub open spec fn occurrence_at(s: Seq<char>, p: int) -> bool {
    &&& (p == 0 || s[p - 1] == '\n')
    &&& matches_at(s, p, "#!["@)
    &&& known_kind_at(s, p + 3)
}

/// Does position `j` of `s` hold `]` at the end of a line?
pub open spec fn is_eol_bracket(s: Seq<char>, j: int) -> bool {
    0 <= j < s.len() && s[j] == ']' && (j + 1 == s.len() || s[j + 1] == '\n')
}

/// The first position at or after `from` holding `]` at the end of a line
/// (or the length of `s` when there is none).
pub open spec fn eol_bracket_from(s: Seq<char>, from: int) -> int
    decreases s.len() - from,
{
    if from < 0 {
        -1
    } else if from >= s.len() {
        s.len() as int
    } else if is_eol_bracket(s, from) {
        from
    } else {
        eol_bracket_from(s, from + 1)
    }
}

proof fn lemma_eol_bracket_unique(s: Seq<char>, from: int, k: int)
    requires
        0 <= from <= k <= s.len(),
        forall|j: int| from <= j < k ==> !is_eol_bracket(s, j),
        k < s.len() ==> is_eol_bracket(s, k),
    ensures
        eol_bracket_from(s, from) == k,
    decreases s.len() - from,
{
    if from < s.len() && !is_eol_bracket(s, from) {
        lemma_eol_bracket_unique(s, from + 1, k);
    }
}

/// Finds the first `]` at the end of a line, at or after `from`; returns
/// the length of `s` when there is none.
fn find_eol_bracket(s: &str, from: usize) -> (r: usize)
    requires
        from <= s@.len(),
    ensures
        r == eol_bracket_from(s@, from as int),
        from <= r <= s@.len(),
{
    let n = s.unicode_len();
    let mut i: usize = from;
    while i < n
        invariant
            n == s@.len(),
            from <= i <= n,
            forall|j: int| from <= j < i ==> !is_eol_bracket(s@, j),
        decreases n - i,
    {
        if s.get_char(i) == ']' && (i + 1 == n || s.get_char(i + 1) == '\n') {
            proof {
                assert(is_eol_bracket(s@, i as int));
                lemma_eol_bracket_unique(s@, from as int, i as int);
            }
            return i;
        }
        proof {
            assert(!is_eol_bracket(s@, i as int));
        }
        i += 1;
    }
    proof {
        lemma_eol_bracket_unique(s@, from as int, n as int);
    }
    n
}

/// The directive occurrences of `s` from position `p` on: the character
/// ranges `[start, end)` of each `#![ ... ]` match, in document order, a
/// later match starting only after the previous one ends.
pub open spec fn scan_from(s: Seq<char>, p: int) -> Seq<(int, int)>
    decreases s.len() - p,
{
    if p < 0 || p >= s.len() {
        Seq::empty()
    } else if occurrence_at(s, p) && p + 3 <= eol_bracket_from(s, p + 3) && eol_bracket_from(
        s,
        p + 3,
    ) < s.len() {
        let e = eol_bracket_from(s, p + 3);
        seq![(p, e + 1)] + scan_from(s, e + 1)
    } else {
        scan_from(s, p + 1)
    }
}

/// The directive occurrences of the whole document.
pub open spec fn scan_spec(s: Seq<char>) -> Seq<(int, int)> {
    scan_from(s, 0)
}

/// Finds every directive occurrence of the document: the character ranges
/// `[start, end)` of the `#![ ... ]` matches, in document order.
pub fn scan_directives(content: &str) -> (r: Vec<(usize, usize)>)
    ensures
        r@.map_values(|t: (usize, usize)| (t.0 as int, t.1 as int)) == scan_spec(content@),
        forall|k: int| 0 <= k < r@.len() ==> #[trigger] r@[k].1 <= content@.len() && r@[k].0 + 3
            <= r@[k].1 - 1 && r@[k].1 >= 1,
        forall|k: int| 0 <= k && k + 1 < r@.len() ==> #[trigger] r@[k].1 <= r@[k + 1].0,
{
    let n = content.unicode_len();
    let mut out: Vec<(usize, usize)> = Vec::new();
    let mut p: usize = 0;
    proof {
        assert(out@.map_values(|t: (usize, usize)| (t.0 as int, t.1 as int)) =~= Seq::<(
            int,
            int,
        )>::empty());
    }
    while p < n
        invariant
            n == content@.len(),
            p <= n,
            scan_spec(content@) =~= out@.map_values(|t: (usize, usize)| (t.0 as int, t.1 as int))
                + scan_from(content@, p as int),
            forall|k: int| 0 <= k < out@.len() ==> #[trigger] out@[k].1 <= content@.len()
                && out@[k].0 + 3 <= out@[k].1 - 1 && out@[k].1 >= 1,
            forall|k: int| 0 <= k < out@.len() ==> #[trigger] out@[k].1 <= p,
            forall|k: int| 0 <= k && k + 1 < out@.len() ==> #[trigger] out@[k].1 <= out@[k + 1].0,
        decreases n - p,
    {
        proof {
            reveal_strlit("#![");
        }
        let line_start = p == 0 || content.get_char(p - 1) == '\n';
        let mut advanced = false;
        if line_start && starts_with_at(content, p, "#![") && known_kind_exec(content, p + 3) {
            let e = find_eol_bracket(content, p + 3);
            if e < n {
                let pair = (p, e + 1);
                proof {
                    assert(out@.push(pair).map_values(|t: (usize, usize)| (t.0 as int, t.1 as int))
                        =~= out@.map_values(|t: (usize, usize)| (t.0 as int, t.1 as int)).push(
                        (p as int, e + 1),
                    ));
                    assert forall|k2: int| 0 <= k2 && k2 + 1 < out@.push(pair).len() implies #[trigger] out@.push(
                        pair,
                    )[k2].1 <= out@.push(pair)[k2 + 1].0 by {
                        if k2 + 1 < out@.len() {
                            assert(out@[k2].1 <= out@[k2 + 1].0);
                        } else {
                            assert(out@[k2].1 <= p);
                        }
                    }
                }
                out.push(pair);
                p = e + 1;
                advanced = true;
            }
        }
        if !advanced {
            proof {
                assert(scan_from(content@, p as int) == scan_from(content@, p + 1));
            }
            p += 1;
        }
    }
    out
}

// ---------------------------------------------------------------------------
// Dependency resolution
// ---------------------------------------------------------------------------

/// A resolved auxiliary reference: a whole top-level item, or one method
/// of an impl block.
#[derive(Clone, Copy, PartialEq, Eq, Structural, Debug)]
pub enum ResolvedDep {
    /// The top-level item at this index.
    Item(usize),
    /// The method at this item and entry index.
    Method(usize, usize),
}

/// Do the indices of a resolved reference lie inside the file?
pub open spec fn dep_in_bounds(src: Seq<ItemModel>, r: ResolvedDep) -> bool {
    match r {
        ResolvedDep::Item(i) => i < src.len(),
        ResolvedDep::Method(i, j) => i < src.len() && j < src[i as int].entries.len(),
    }
}

/// Lifts a found item index into a resolved reference.
pub open spec fn item_opt(o: Option<int>) -> Option<ResolvedDep> {
    match o {
        Some(i) => Some(ResolvedDep::Item(i as usize)),
        None => None,
    }
}

/// Lifts a found method position into a resolved reference.
pub open spec fn method_opt(o: Option<(int, int)>) -> Option<ResolvedDep> {
    match o {
        Some((i, j)) => Some(ResolvedDep::Method(i as usize, j as usize)),
        None => None,
    }
}

/// What one dependency reference resolves to.  A `struct `, `enum `,
/// `trait ` or `impl ` prefix selects the item of that shape (an `impl`
/// reference holding ` for ` selects a trait impl, one holding `::` the
/// named method of the type's inherent impl); a qualified `Type::method`
/// selects that method; a bare name is an ambiguous struct-or-enum lookup,
/// struct first.
pub open spec fn resolve_dep_spec(src: Seq<ItemModel>, d: Seq<char>) -> Option<ResolvedDep> {
    if matches_at(d, 0, "struct "@) {
        item_opt(find_item_spec(src, Matcher::Struct(trim_spec(d.skip(7)))))
    } else if matches_at(d, 0, "enum "@) {
        item_opt(find_item_spec(src, Matcher::Enum(trim_spec(d.skip(5)))))
    } else if matches_at(d, 0, "trait "@) {
        item_opt(find_item_spec(src, Matcher::Trait(trim_spec(d.skip(6)))))
    } else if matches_at(d, 0, "impl "@) {
        let rest = d.skip(5);
        let f = next_match(rest, 0, " for "@);
        if f < rest.len() {
            item_opt(
                find_item_spec(
                    src,
                    Matcher::TraitImpl(
                        trim_spec(rest.subrange(0, f)),
                        trim_spec(rest.subrange(f + 5, rest.len() as int)),
                    ),
                ),
            )
        } else if last_match_before(rest, "::"@, rest.len() as int) >= 0 {
            method_opt(find_method_spec(src, rest))
        } else {
            item_opt(find_item_spec(src, Matcher::StructImpl(trim_spec(rest))))
        }
    } else if last_match_before(d, "::"@, d.len() as int) >= 0 {
        method_opt(find_method_spec(src, d))
    } else {
        match find_item_spec(src, Matcher::Struct(d)) {
            Some(i) => Some(ResolvedDep::Item(i as usize)),
            None => item_opt(find_item_spec(src, Matcher::Enum(d))),
        }
    }
}

/// Resolves one dependency reference, as [`resolve_dep_spec`] describes.
pub fn resolve_dependency(parsed_file: &ParsedSource, d: &str) -> (r: Option<ResolvedDep>)
    ensures
        r == resolve_dep_spec(parsed_file@, d@),
        r matches Some(dep) ==> dep_in_bounds(parsed_file@, dep),
{
    let n = d.unicode_len();
    if starts_with_at(d, 0, "struct ") {
        proof {
            reveal_strlit("struct ");
        }
        let raw = substring_copy(d, 7, n);
        let name = trim_ws(raw.as_str());
        proof {
            assert(d@.subrange(7, n as int) =~= d@.skip(7));
        }
        match find_struct(parsed_file, name.as_str()) {
            Some(i) => Some(ResolvedDep::Item(i)),
            None => None,
        }
    } else if starts_with_at(d, 0, "enum ") {
        proof {
            reveal_strlit("enum ");
        }
        let raw = substring_copy(d, 5, n);
        let name = trim_ws(raw.as_str());
        proof {
            assert(d@.subrange(5, n as int) =~= d@.skip(5));
        }
        match find_enum(parsed_file, name.as_str()) {
            Some(i) => Some(ResolvedDep::Item(i)),
            None => None,
        }
    } else if starts_with_at(d, 0, "trait ") {
        proof {
            reveal_strlit("trait ");
        }
        let raw = substring_copy(d, 6, n);
        let name = trim_ws(raw.as_str());
        proof {
            assert(d@.subrange(6, n as int) =~= d@.skip(6));
        }
        match find_trait(parsed_file, name.as_str()) {
            Some(i) => Some(ResolvedDep::Item(i)),
            None => None,
        }
    } else if starts_with_at(d, 0, "impl ") {
        proof {
            reveal_strlit("impl ");
        }
        let rest = substring_copy(d, 5, n);
        proof {
            assert(rest@ =~= d@.skip(5));
        }
        let rn = rest.as_str().unicode_len();
        let f = find_sub_from(rest.as_str(), 0, " for ");
        if f < rn {
            proof {
                reveal_strlit(" for ");
            }
            let tr_raw = substring_copy(rest.as_str(), 0, f);
            let ty_raw = substring_copy(rest.as_str(), f + 5, rn);
            let tr = trim_ws(tr_raw.as_str());
            let ty = trim_ws(ty_raw.as_str());
            match find_trait_impl(parsed_file, tr.as_str(), ty.as_str()) {
                Some(i) => Some(ResolvedDep::Item(i)),
                None => None,
            }
        } else {
            let qual = rfind_sub(rest.as_str(), rn, "::");
            proof {
                crate::text::lemma_last_match_before(rest@, "::"@, rn as int);
            }
            match qual {
                Some(_) => match find_method(parsed_file, rest.as_str()) {
                    Some((i, j)) => Some(ResolvedDep::Method(i, j)),
                    None => None,
                },
                None => {
                    let ty = trim_ws(rest.as_str());
                    match find_struct_impl(parsed_file, ty.as_str()) {
                        Some(i) => Some(ResolvedDep::Item(i)),
                        None => None,
                    }
                },
            }
        }
    } else {
        let qual = rfind_sub(d, n, "::");
        proof {
            crate::text::lemma_last_match_before(d@, "::"@, n as int);
        }
        match qual {
            Some(_) => match find_method(parsed_file, d) {
                Some((i, j)) => Some(ResolvedDep::Method(i, j)),
                None => None,
            },
            None => match find_struct(parsed_file, d) {
                Some(i) => Some(ResolvedDep::Item(i)),
                None => match find_enum(parsed_file, d) {
                    Some(i) => Some(ResolvedDep::Item(i)),
                    None => None,
                },
            },
        }
    }
}

/// The resolution of the first `k` dependency references: all resolved, in
/// order, or the first reference that does not resolve.
pub open spec fn resolve_deps_pre(src: Seq<ItemModel>, deps: Seq<Seq<char>>, k: int) -> Result<
    Seq<ResolvedDep>,
    Seq<char>,
>
    decreases k,
{
    if k <= 0 {
        Ok(Seq::empty())
    } else {
        match resolve_deps_pre(src, deps, k - 1) {
            Err(e) => Err(e),
            Ok(v) => match resolve_dep_spec(src, deps[k - 1]) {
                None => Err(deps[k - 1]),
                Some(r) => Ok(v.push(r)),
            },
        }
    }
}

/// The resolution of a dependency list: every reference resolved, in the
/// directive's order, or the first reference that does not resolve.
pub open spec fn resolve_deps_spec(src: Seq<ItemModel>, deps: Seq<Seq<char>>) -> Result<
    Seq<ResolvedDep>,
    Seq<char>,
> {
    resolve_deps_pre(src, deps, deps.len() as int)
}

/// A failed prefix resolution fails every longer prefix the same way.
proof fn lemma_deps_err_persists(src: Seq<ItemModel>, deps: Seq<Seq<char>>, k: int, k2: int)
    requires
        0 <= k <= k2,
        resolve_deps_pre(src, deps, k) is Err,
    ensures
        resolve_deps_pre(src, deps, k2) == resolve_deps_pre(src, deps, k),
    decreases k2 - k,
{
    if k < k2 {
        lemma_deps_err_persists(src, deps, k, k2 - 1);
    }
}

/// Resolves every dependency reference, in order; an unresolvable
/// reference fails the whole list.
pub fn resolve_dependencies(parsed_file: &ParsedSource, extra_items: &Vec<String>) -> (r: Result<
    Vec<ResolvedDep>,
    SnippetError,
>)
    ensures
        match r {
            Ok(v) => {
                &&& resolve_deps_spec(parsed_file@, views_of(extra_items@)) == Ok::<_, Seq<char>>(
                    v@,
                )
                &&& forall|k: int|
                    0 <= k < v@.len() ==> dep_in_bounds(parsed_file@, #[trigger] v@[k])
            },
            Err(e) => {
                &&& resolve_deps_spec(parsed_file@, views_of(extra_items@)) is Err
                &&& e@ == (ErrorModel::DependencyNotFound {
                    name: resolve_deps_spec(parsed_file@, views_of(extra_items@))->Err_0,
                })
            },
        },
{
    let ghost deps = views_of(extra_items@);
    let mut out: Vec<ResolvedDep> = Vec::new();
    let mut i: usize = 0;
    while i < extra_items.len()
        invariant
            deps == views_of(extra_items@),
            i <= deps.len(),
            resolve_deps_pre(parsed_file@, deps, i as int) == Ok::<_, Seq<char>>(out@),
            forall|k: int| 0 <= k < out@.len() ==> dep_in_bounds(parsed_file@, #[trigger] out@[k]),
        decreases deps.len() - i,
    {
        let d = &extra_items[i];
        proof {
            assert(deps[i as int] == extra_items@[i as int]@);
        }
        match resolve_dependency(parsed_file, d.as_str()) {
            Some(dep) => {
                out.push(dep);
            },
            None => {
                proof {
                    assert(resolve_deps_pre(parsed_file@, deps, i + 1) == Err::<
                        Seq<ResolvedDep>,
                        _,
                    >(deps[i as int]));
                    lemma_deps_err_persists(parsed_file@, deps, i + 1, deps.len() as int);
                }
                return Err(SnippetError::DependencyNotFound { name: d.clone() });
            },
        }
        i += 1;
    }
    Ok(out)
}

// ---------------------------------------------------------------------------
// The hidden/visible partition
// ---------------------------------------------------------------------------

/// Is the top-level item at `i` already shown by one of the visible
/// references?
pub open spec fn covered_by(visible: Seq<ResolvedDep>, i: int) -> bool {
    exists|k: int| 0 <= k < visible.len() && visible[k] == ResolvedDep::Item(i as usize)
}

/// The hidden item indices below `k`: every index that is neither the
/// primary item nor covered by a visible reference, in file order.
pub open spec fn hidden_pre(primary: int, visible: Seq<ResolvedDep>, k: int) -> Seq<int>
    decreases k,
{
    if k <= 0 {
        Seq::empty()
    } else {
        let rest = hidden_pre(primary, visible, k - 1);
        if k - 1 == primary || covered_by(visible, k - 1) {
            rest
        } else {
            rest.push(k - 1)
        }
    }
}

/// The hidden item indices of a file with `n` items: everything that is
/// neither the primary item nor covered by a visible reference.
pub open spec fn hidden_indices_spec(n: int, primary: int, visible: Seq<ResolvedDep>) -> Seq<int> {
    hidden_pre(primary, visible, n)
}

/// Is the item at `i` among the visible whole-item references?
fn covered_exec(visible: &Vec<ResolvedDep>, i: usize) -> (r: bool)
    ensures
        r == covered_by(visible@, i as int),
{
    let mut k: usize = 0;
    while k < visible.len()
        invariant
            k <= visible@.len(),
            forall|k2: int| 0 <= k2 < k ==> visible@[k2] != ResolvedDep::Item(i),
        decreases visible@.len() - k,
    {
        if visible[k] == ResolvedDep::Item(i) {
            return true;
        }
        k += 1;
    }
    false
}

/// Collects the hidden item indices, as [`hidden_indices_spec`] describes.
fn compute_hidden(n: usize, primary: usize, visible: &Vec<ResolvedDep>) -> (r: Vec<usize>)
    ensures
        r@.map_values(|u: usize| u as int) == hidden_indices_spec(
            n as int,
            primary as int,
            visible@,
        ),
        forall|k: int| 0 <= k < r@.len() ==> #[trigger] r@[k] < n,
{
    let mut out: Vec<usize> = Vec::new();
    proof {
        assert(out@.map_values(|u: usize| u as int) =~= hidden_pre(primary as int, visible@, 0));
    }
    let mut i: usize = 0;
    while i < n
        invariant
            i <= n,
            out@.map_values(|u: usize| u as int) =~= hidden_pre(primary as int, visible@, i as int),
            forall|k: int| 0 <= k < out@.len() ==> #[trigger] out@[k] < n,
        decreases n - i,
    {
        if i != primary && !covered_exec(visible, i) {
            proof {
                assert(out@.push(i).map_values(|u: usize| u as int) =~= out@.map_values(
                    |u: usize| u as int,
                ).push(i as int));
            }
            out.push(i);
        }
        i += 1;
    }
    out
}

/// Resolves the auxiliary references of a directive whose primary item is
/// the top-level item at `primary`, and partitions the file: every listed
/// reference is visible, and every other top-level item (except the
/// primary) is hidden, so the snippet compiles without the author
/// enumerating all its supporting items.
pub fn process_extra(parsed_file: &ParsedSource, primary: usize, extra_items: &Vec<String>) -> (r:
    Result<(Vec<usize>, Vec<ResolvedDep>), SnippetError>)
    requires
        primary < parsed_file@.len(),
    ensures
        match r {
            Ok((hidden, visible)) => {
                &&& resolve_deps_spec(parsed_file@, views_of(extra_items@)) == Ok::<_, Seq<char>>(
                    visible@,
                )
                &&& hidden@.map_values(|u: usize| u as int) == hidden_indices_spec(
                    parsed_file@.len() as int,
                    primary as int,
                    visible@,
                )
                &&& forall|k: int|
                    0 <= k < visible@.len() ==> dep_in_bounds(parsed_file@, #[trigger] visible@[k])
                &&& forall|k: int| 0 <= k < hidden@.len() ==> #[trigger] hidden@[k]
                    < parsed_file@.len()
            },
            Err(e) => {
                &&& resolve_deps_spec(parsed_file@, views_of(extra_items@)) is Err
                &&& e@ == (ErrorModel::DependencyNotFound {
                    name: resolve_deps_spec(parsed_file@, views_of(extra_items@))->Err_0,
                })
            },
        },
{
    let visible = match resolve_dependencies(parsed_file, extra_items) {
        Ok(v) => v,
        Err(e) => {
            return Err(e);
        },
    };
    let hidden = compute_hidden(parsed_file.len(), primary, &visible);
    Ok((hidden, visible))
}

/// Resolves the auxiliary references of a directive whose primary item is
/// a method.  A method is shown inside its impl block's context, so
/// nothing is hidden by default: only the listed references are added,
/// visibly.
pub fn process_extra_for_method(parsed_file: &ParsedSource, extra_items: &Vec<String>) -> (r:
    Result<(Vec<usize>, Vec<ResolvedDep>), SnippetError>)
    ensures
        match r {
            Ok((hidden, visible)) => {
                &&& resolve_deps_spec(parsed_file@, views_of(extra_items@)) == Ok::<_, Seq<char>>(
                    visible@,
                )
                &&& hidden@ == Seq::<usize>::empty()
                &&& forall|k: int|
                    0 <= k < visible@.len() ==> dep_in_bounds(parsed_file@, #[trigger] visible@[k])
            },
            Err(e) => {
                &&& resolve_deps_spec(parsed_file@, views_of(extra_items@)) is Err
                &&& e@ == (ErrorModel::DependencyNotFound {
                    name: resolve_deps_spec(parsed_file@, views_of(extra_items@))->Err_0,
                })
            },
        },
{
    let visible = match resolve_dependencies(parsed_file, extra_items) {
        Ok(v) => v,
        Err(e) => {
            return Err(e);
        },
    };
    let hidden: Vec<usize> = Vec::new();
    proof {
        assert(hidden@ =~= Seq::<usize>::empty());
    }
    Ok((hidden, visible))
}

// ---------------------------------------------------------------------------
// Composition of one directive's substitution text
// ---------------------------------------------------------------------------

/// The rendered text of a resolved reference: the re-indented source text
/// of the whole item, or of the one method.
pub open spec fn render_dep_spec(src: Seq<ItemModel>, d: ResolvedDep) -> Seq<char> {
    match d {
        ResolvedDep::Item(i) => dedent_spec(src[i as int].text),
        ResolvedDep::Method(i, j) => dedent_spec(src[i as int].entries[j as int].text),
    }
}

/// The hidden blocks: the re-indented texts of the hidden items.
pub open spec fn hidden_blocks_spec(src: Seq<ItemModel>, hidden: Seq<int>) -> Seq<Seq<char>> {
    hidden.map_values(|i: int| dedent_spec(src[i].text))
}

/// The visible blocks of the dependencies, in directive order.
pub open spec fn visible_blocks_spec(src: Seq<ItemModel>, visible: Seq<ResolvedDep>) -> Seq<
    Seq<char>,
> {
    visible.map_values(|d: ResolvedDep| render_dep_spec(src, d))
}

/// One directive's substitution text before trimming: the hidden items
/// first, then the visible dependencies in directive order, the primary
/// item's block last.
pub open spec fn composed_spec(
    src: Seq<ItemModel>,
    hidden: Seq<int>,
    visible: Seq<ResolvedDep>,
    primary_block: Seq<char>,
) -> Seq<char> {
    compose_spec(
        OutputModel {
            hidden: hidden_blocks_spec(src, hidden),
            visible: visible_blocks_spec(src, visible).push(primary_block),
        },
    )
}

/// Assembles one directive's substitution text, as [`composed_spec`]
/// describes.
fn compose_result(
    parsed_file: &ParsedSource,
    hidden: &Vec<usize>,
    visible: &Vec<ResolvedDep>,
    primary_block: String,
) -> (r: String)
    requires
        forall|k: int| 0 <= k < hidden@.len() ==> #[trigger] hidden@[k] < parsed_file@.len(),
        forall|k: int|
            0 <= k < visible@.len() ==> dep_in_bounds(parsed_file@, #[trigger] visible@[k]),
    ensures
        r@ == composed_spec(
            parsed_file@,
            hidden@.map_values(|u: usize| u as int),
            visible@,
            primary_block@,
        ),
{
    let ghost src = parsed_file@;
    let ghost hseq = hidden@.map_values(|u: usize| u as int);
    let ghost hblocks = hidden_blocks_spec(src, hseq);
    let ghost vblocks = visible_blocks_spec(src, visible@);
    let mut out = Output::new();
    let mut i: usize = 0;
    while i < hidden.len()
        invariant
            src == parsed_file@,
            hseq == hidden@.map_values(|u: usize| u as int),
            hblocks == hidden_blocks_spec(src, hseq),
            forall|k: int| 0 <= k < hidden@.len() ==> #[trigger] hidden@[k] < src.len(),
            i <= hidden@.len(),
            out@.hidden =~= hblocks.take(i as int),
            out@.visible =~= Seq::<Seq<char>>::empty(),
        decreases hidden@.len() - i,
    {
        let block = format_item(parsed_file.item(hidden[i]));
        proof {
            assert(block@ == hblocks[i as int]);
            assert(hblocks.take(i + 1) =~= hblocks.take(i as int).push(hblocks[i as int]));
        }
        out.add_hidden_content(block);
        i += 1;
    }
    proof {
        assert(hblocks.take(hidden@.len() as int) =~= hblocks);
    }
    let mut i: usize = 0;
    while i < visible.len()
        invariant
            src == parsed_file@,
            vblocks == visible_blocks_spec(src, visible@),
            hblocks == hidden_blocks_spec(src, hseq),
            forall|k: int| 0 <= k < visible@.len() ==> dep_in_bounds(src, #[trigger] visible@[k]),
            i <= visible@.len(),
            out@.hidden =~= hblocks,
            out@.visible =~= vblocks.take(i as int),
        decreases visible@.len() - i,
    {
        let block = match visible[i] {
            ResolvedDep::Item(idx) => format_item(parsed_file.item(idx)),
            ResolvedDep::Method(idx, jdx) => {
                let it = parsed_file.item(idx);
                proof {
                    assert(dep_in_bounds(src, visible@[i as int]));
                    assert(it@.entries[jdx as int] == it.entries@[jdx as int]@);
                }
                dedent(it.entries[jdx].text.as_str())
            },
        };
        proof {
            assert(block@ == vblocks[i as int]);
            assert(vblocks.take(i + 1) =~= vblocks.take(i as int).push(vblocks[i as int]));
        }
        out.add_visible_content(block);
        i += 1;
    }
    proof {
        assert(vblocks.take(visible@.len() as int) =~= vblocks);
    }
    out.add_visible_content(primary_block);
    out.format()
}

// ---------------------------------------------------------------------------
// Processing of one directive
// ---------------------------------------------------------------------------

/// The outcome of a directive whose primary item is the top-level item at
/// `primary` and whose rendered primary block is `block`: the listed
/// references resolved and shown, everything else hidden; or the first
/// unresolvable reference's error.
pub open spec fn item_directive_spec(
    src: Seq<ItemModel>,
    deps: Seq<Seq<char>>,
    primary: int,
    block: Seq<char>,
) -> Result<Seq<char>, ErrorModel> {
    match resolve_deps_spec(src, deps) {
        Err(dname) => Err(ErrorModel::DependencyNotFound { name: dname }),
        Ok(visible) => Ok(
            composed_spec(
                src,
                hidden_indices_spec(src.len() as int, primary, visible),
                visible,
                block,
            ),
        ),
    }
}

/// The outcome of a directive whose primary item is a method with
/// rendered block `block`: the listed references shown, nothing hidden; or
/// the first unresolvable reference's error.
pub open spec fn method_directive_spec(
    src: Seq<ItemModel>,
    deps: Seq<Seq<char>>,
    block: Seq<char>,
) -> Result<Seq<char>, ErrorModel> {
    match resolve_deps_spec(src, deps) {
        Err(dname) => Err(ErrorModel::DependencyNotFound { name: dname }),
        Ok(visible) => Ok(composed_spec(src, Seq::empty(), visible, block)),
    }
}

/// Processes a directive whose primary item is the top-level item at
/// `primary`; `body_format` selects body rendering over whole-item
/// rendering.
fn process_item_directive(
    parsed_file: &ParsedSource,
    directive: &Directive,
    primary: usize,
    body_format: bool,
) -> (r: Result<String, SnippetError>)
    requires
        primary < parsed_file@.len(),
        body_format ==> parsed_file@[primary as int].kind == ItemKind::Function,
    ensures
        match r {
            Ok(s) => item_directive_spec(
                parsed_file@,
                views_of(directive.extra_items@),
                primary as int,
                if body_format {
                    body_spec(parsed_file@[primary as int].text)
                } else {
                    dedent_spec(parsed_file@[primary as int].text)
                },
            ) == Ok::<_, ErrorModel>(s@),
            Err(e) => item_directive_spec(
                parsed_file@,
                views_of(directive.extra_items@),
                primary as int,
                if body_format {
                    body_spec(parsed_file@[primary as int].text)
                } else {
                    dedent_spec(parsed_file@[primary as int].text)
                },
            ) == Err::<Seq<char>, _>(e@),
        },
{
    let (hidden, visible) = match process_extra(parsed_file, primary, &directive.extra_items) {
        Ok(hv) => hv,
        Err(e) => {
            return Err(e);
        },
    };
    let block = if body_format {
        format_function_body(parsed_file.item(primary))
    } else {
        format_item(parsed_file.item(primary))
    };
    Ok(compose_result(parsed_file, &hidden, &visible, block))
}

/// Processes a directive whose primary item is the method at `(i, j)`;
/// `body_format` selects body rendering over whole-method rendering.
fn process_located_method(
    parsed_file: &ParsedSource,
    directive: &Directive,
    i: usize,
    j: usize,
    body_format: bool,
) -> (r: Result<String, SnippetError>)
    requires
        i < parsed_file@.len(),
        j < parsed_file@[i as int].entries.len(),
        parsed_file@[i as int].entries[j as int].is_fn,
    ensures
        match r {
            Ok(s) => method_directive_spec(
                parsed_file@,
                views_of(directive.extra_items@),
                if body_format {
                    body_spec(parsed_file@[i as int].entries[j as int].text)
                } else {
                    dedent_spec(parsed_file@[i as int].entries[j as int].text)
                },
            ) == Ok::<_, ErrorModel>(s@),
            Err(e) => method_directive_spec(
                parsed_file@,
                views_of(directive.extra_items@),
                if body_format {
                    body_spec(parsed_file@[i as int].entries[j as int].text)
                } else {
                    dedent_spec(parsed_file@[i as int].entries[j as int].text)
                },
            ) == Err::<Seq<char>, _>(e@),
        },
{
    let (hidden, visible) = match process_extra_for_method(parsed_file, &directive.extra_items) {
        Ok(hv) => hv,
        Err(e) => {
            return Err(e);
        },
    };
    let it = parsed_file.item(i);
    proof {
        assert(it@.entries[j as int] == it.entries@[j as int]@);
    }
    let method = &it.entries[j];
    let block = if body_format {
        format_method_body(method)
    } else {
        format_method(method)
    };
    proof {
        assert(hidden@.map_values(|u: usize| u as int) =~= Seq::<int>::empty());
    }
    Ok(compose_result(parsed_file, &hidden, &visible, block))
}

/// The outcome of a directive that names a method (`Type::method` or
/// `Trait for Type::method`): the method located and rendered (the body
/// alone, or the whole method), with the listed references shown and
/// nothing hidden.
pub open spec fn method_lookup_directive_spec(
    src: Seq<ItemModel>,
    d: DirectiveModel,
    body_format: bool,
) -> Result<Seq<char>, ErrorModel> {
    let item_ref = match d.item {
        Some(s) => s,
        None => Seq::empty(),
    };
    match find_method_spec(src, item_ref) {
        None => Err(ErrorModel::ElementNotFound { kind: "Method"@, name: item_ref }),
        Some((i, j)) => method_directive_spec(
            src,
            d.extra_items,
            if body_format {
                body_spec(src[i].entries[j].text)
            } else {
                dedent_spec(src[i].entries[j].text)
            },
        ),
    }
}

/// Processes a directive that names a method, rendering the body alone,
/// as [`method_lookup_directive_spec`] describes.
pub fn process_method_body_directive(parsed_file: &ParsedSource, directive: &Directive) -> (r:
    Result<String, SnippetError>)
    requires
        directive@.item is Some,
    ensures
        match r {
            Ok(s) => method_lookup_directive_spec(parsed_file@, directive@, true) == Ok::<
                _,
                ErrorModel,
            >(s@),
            Err(e) => method_lookup_directive_spec(parsed_file@, directive@, true) == Err::<
                Seq<char>,
                _,
            >(e@),
        },
{
    process_method_lookup(parsed_file, directive, true)
}

/// Processes a directive that names a method, rendering the whole method
/// (signature and body), as [`method_lookup_directive_spec`] describes.
pub fn process_method_directive(parsed_file: &ParsedSource, directive: &Directive) -> (r: Result<
    String,
    SnippetError,
>)
    requires
        directive@.item is Some,
    ensures
        match r {
            Ok(s) => method_lookup_directive_spec(parsed_file@, directive@, false) == Ok::<
                _,
                ErrorModel,
            >(s@),
            Err(e) => method_lookup_directive_spec(parsed_file@, directive@, false) == Err::<
                Seq<char>,
                _,
            >(e@),
        },
{
    process_method_lookup(parsed_file, directive, false)
}

/// Shared body of the two method-directive processors.
fn process_method_lookup(parsed_file: &ParsedSource, directive: &Directive, body_format: bool) -> (r:
    Result<String, SnippetError>)
    requires
        directive@.item is Some,
    ensures
        match r {
            Ok(s) => method_lookup_directive_spec(parsed_file@, directive@, body_format) == Ok::<
                _,
                ErrorModel,
            >(s@),
            Err(e) => method_lookup_directive_spec(parsed_file@, directive@, body_format) == Err::<
                Seq<char>,
                _,
            >(e@),
        },
{
    let item_ref = match &directive.item {
        Some(s) => s.clone(),
        None => {
            // unreachable: the caller has checked the item
            String::new()
        },
    };
    match find_method(parsed_file, item_ref.as_str()) {
        Some((i, j)) => {
            proof {
                let (t, ty, m) = method_spec_parts(item_ref@).unwrap();
                lemma_first_entry_props(parsed_file@[i as int].entries, m, 0);
            }
            process_located_method(parsed_file, directive, i, j, body_format)
        },
        None => Err(
            SnippetError::ElementNotFound { kind: String::from_str("Method"), name: item_ref },
        ),
    }
}

/// The outcome of a `function` or `function_body` directive: a qualified
/// item reference names a method; a bare name resolves to the first
/// top-level function of that name, else to the first method of that name
/// in any impl block.
pub open spec fn function_directive_spec(
    src: Seq<ItemModel>,
    d: DirectiveModel,
    item_ref: Seq<char>,
    body_format: bool,
) -> Result<Seq<char>, ErrorModel> {
    if method_spec_parts(item_ref) is Some {
        method_lookup_directive_spec(src, d, body_format)
    } else {
        match find_item_spec(src, Matcher::Function(item_ref)) {
            Some(i) => item_directive_spec(
                src,
                d.extra_items,
                i,
                if body_format {
                    body_spec(src[i].text)
                } else {
                    dedent_spec(src[i].text)
                },
            ),
            None => match first_method_anywhere(src, item_ref) {
                Some((i, j)) => method_directive_spec(
                    src,
                    d.extra_items,
                    if body_format {
                        body_spec(src[i].entries[j].text)
                    } else {
                        dedent_spec(src[i].entries[j].text)
                    },
                ),
                None => Err(ErrorModel::ElementNotFound { kind: "function"@, name: item_ref }),
            },
        }
    }
}

/// Processes a `function` or `function_body` directive, as
/// [`function_directive_spec`] describes.
fn process_function_directive(
    parsed_file: &ParsedSource,
    directive: &Directive,
    item_ref: &String,
    body_format: bool,
) -> (r: Result<String, SnippetError>)
    requires
        directive@.item == Some(item_ref@),
    ensures
        match r {
            Ok(s) => function_directive_spec(parsed_file@, directive@, item_ref@, body_format)
                == Ok::<_, ErrorModel>(s@),
            Err(e) => function_directive_spec(parsed_file@, directive@, item_ref@, body_format)
                == Err::<Seq<char>, _>(e@),
        },
{
    match parse_method_spec(item_ref.as_str()) {
        Some(_) => process_method_lookup(parsed_file, directive, body_format),
        None => {
            match resolve_free(parsed_file, item_ref.as_str()) {
                FreeResolution::Function(i) => {
                    proof {
                        crate::locator::lemma_first_match_props(
                            parsed_file@,
                            Matcher::Function(item_ref@),
                            0,
                        );
                    }
                    process_item_directive(parsed_file, directive, i, body_format)
                },
                FreeResolution::Method(i, j) => {
                    proof {
                        crate::locator::lemma_first_match_props(
                            parsed_file@,
                            Matcher::ImplWithMethod(item_ref@),
                            0,
                        );
                        lemma_first_entry_props(parsed_file@[i as int].entries, item_ref@, 0);
                    }
                    process_located_method(parsed_file, directive, i, j, body_format)
                },
                FreeResolution::NotFound => Err(
                    SnippetError::ElementNotFound {
                        kind: String::from_str("function"),
                        name: item_ref.clone(),
                    },
                ),
            }
        },
    }
}

// ---------------------------------------------------------------------------
// Diagnostic paths and messages
// ---------------------------------------------------------------------------

/// The human-readable form of `path` relative to the report root: with the
/// root (and a following separator) stripped when `path` starts with it,
/// and a leading `./` either way.
pub open spec fn relative_path_spec(root: Seq<char>, path: Seq<char>) -> Seq<char> {
    if root.len() > 0 && matches_at(path, 0, root) {
        let rest = path.skip(root.len() as int);
        if rest.len() > 0 && rest[0] == '/' {
            "./"@ + rest.skip(1)
        } else {
            "./"@ + rest
        }
    } else {
        "./"@ + path
    }
}

/// Renders `path` relative to the report root, as [`relative_path_spec`]
/// describes.  The root is threaded in explicitly so the formatter does
/// not depend on ambient process state.
pub fn get_relative_path(root: &str, path: &str) -> (r: String)
    ensures
        r@ == relative_path_spec(root@, path@),
{
    let rl = root.unicode_len();
    let pl = path.unicode_len();
    let mut out = String::from_str("./");
    if rl > 0 && rl <= pl && starts_with_at(path, 0, root) {
        proof {
            assert(path@.subrange(0, rl as int) == root@);
        }
        let rest_start = if rl < pl && path.get_char(rl) == '/' {
            rl + 1
        } else {
            rl
        };
        let rest = substring_copy(path, rest_start, pl);
        out.append(rest.as_str());
        proof {
            if rl < pl && path@[rl as int] == '/' {
                assert(path@.skip(rl as int).skip(1) =~= path@.subrange(rl + 1, pl as int));
            } else {
                assert(path@.skip(rl as int) =~= path@.subrange(rl as int, pl as int));
                assert(!(path@.skip(rl as int).len() > 0 && path@.skip(rl as int)[0] == '/'));
            }
        }
        out
    } else {
        proof {
            if rl > 0 {
                assert(!matches_at(path@, 0, root@));
            }
        }
        out.append(path);
        out
    }
}

/// A one-line diagnostic: `<relative-path>:<line>:<column>: <message>`.
pub open spec fn diagnostic_spec(rel: Seq<char>, line: int, col: int, msg: Seq<char>) -> Seq<char> {
    rel + ":"@ + dec_digits(line as nat) + ":"@ + dec_digits(col as nat) + ": "@ + msg
}

/// Renders the one-line diagnostic for a failed directive.
pub fn format_diagnostic(rel: &str, line: usize, col: usize, msg: &str) -> (r: String)
    ensures
        r@ == diagnostic_spec(rel@, line as int, col as int, msg@),
{
    let mut out = rel.to_owned();
    out.append(":");
    let ls = usize_to_string(line);
    out.append(ls.as_str());
    out.append(":");
    let cs = usize_to_string(col);
    out.append(cs.as_str());
    out.append(": ");
    out.append(msg);
    out
}

// ---------------------------------------------------------------------------
// The dispatch over directive kinds
// ---------------------------------------------------------------------------

/// Is this one of the known directive kind words?
pub open spec fn known_kind_word(kind: Seq<char>) -> bool {
    ||| kind == "source_file"@
    ||| kind == "function"@
    ||| kind == "function_body"@
    ||| kind == "struct"@
    ||| kind == "enum"@
    ||| kind == "trait"@
    ||| kind == "impl"@
    ||| kind == "trait_impl"@
}

/// The outcome of a directive that names a single top-level item of fixed
/// shape: the first matching item rendered whole, everything else hidden
/// but the listed references.
pub open spec fn named_item_result(
    src: Seq<ItemModel>,
    d: DirectiveModel,
    m: Matcher,
    kind_word: Seq<char>,
    item_ref: Seq<char>,
) -> Result<Seq<char>, ErrorModel> {
    match find_item_spec(src, m) {
        None => Err(ErrorModel::ElementNotFound { kind: kind_word, name: item_ref }),
        Some(i) => item_directive_spec(src, d.extra_items, i, dedent_spec(src[i].text)),
    }
}

/// The outcome of a known, parsed directive over a parsed file: the
/// located element rendered and composed with its dependencies, or the
/// error that stops it.
pub open spec fn resolve_known_spec(
    s: Seq<char>,
    kind: Seq<char>,
    src: Seq<ItemModel>,
    d: DirectiveModel,
) -> Result<Seq<char>, ErrorModel> {
    match d.item {
        None => Err(ErrorModel::MalformedDirective { directive: s }),
        Some(item_ref) => {
            if kind == "struct"@ {
                named_item_result(src, d, Matcher::Struct(item_ref), "struct"@, item_ref)
            } else if kind == "enum"@ {
                named_item_result(src, d, Matcher::Enum(item_ref), "enum"@, item_ref)
            } else if kind == "trait"@ {
                named_item_result(src, d, Matcher::Trait(item_ref), "trait"@, item_ref)
            } else if kind == "impl"@ {
                named_item_result(src, d, Matcher::StructImpl(item_ref), "impl"@, item_ref)
            } else if kind == "trait_impl"@ {
                let f = next_match(item_ref, 0, " for "@);
                if f >= item_ref.len() {
                    Err(ErrorModel::ElementNotFound { kind: "trait impl"@, name: item_ref })
                } else {
                    named_item_result(
                        src,
                        d,
                        Matcher::TraitImpl(
                            trim_spec(item_ref.subrange(0, f)),
                            trim_spec(item_ref.subrange(f + 5, item_ref.len() as int)),
                        ),
                        "trait impl"@,
                        item_ref,
                    )
                }
            } else if kind == "function"@ {
                function_directive_spec(src, d, item_ref, false)
            } else {
                function_directive_spec(src, d, item_ref, true)
            }
        },
    }
}

/// The view of an optional file content.
pub open spec fn opt_view(file: Option<&str>) -> Option<Seq<char>> {
    match file {
        Some(f) => Some(f@),
        None => None,
    }
}

/// The outcome of one directive occurrence, given the referenced file's
/// content (`None` when the file could not be read).  Text whose kind word
/// is not known passes through unchanged; every other outcome is the
/// trimmed substitution text or the error that stops the directive.
pub open spec fn resolve_directive_spec(s: Seq<char>, file: Option<Seq<char>>) -> Result<
    Seq<char>,
    ErrorModel,
> {
    let bang = next_pos(s, 0, '!');
    let kind = s.subrange(0, bang);
    if bang == s.len() || !known_kind_word(kind) {
        Ok(s)
    } else {
        match parse_directive_spec(s) {
            None => Err(ErrorModel::MalformedDirective { directive: s }),
            Some(d) => match file {
                None => Err(ErrorModel::FileNotFound { path: d.file_path }),
                Some(content) => {
                    if kind == "source_file"@ {
                        Ok(trim_spec(content))
                    } else {
                        match parse_result(content) {
                            None => Err(ErrorModel::SyntaxError { path: d.file_path }),
                            Some(src) => match resolve_known_spec(s, kind, src, d) {
                                Ok(x) => Ok(trim_spec(x)),
                                Err(e) => Err(e),
                            },
                        }
                    }
                },
            },
        }
    }
}

/// Processes a `source_file` directive: the whole file content stands in
/// for the directive.
pub fn process_source_file_directive(content: &str) -> (r: String)
    ensures
        r@ == content@,
{
    content.to_owned()
}

/// Processes one directive occurrence, as [`resolve_directive_spec`]
/// describes: parses the directive text, looks the named element up in the
/// given file content, and renders the substitution text; a directive of
/// unknown kind passes through unchanged.
pub fn process_include_rs_directive(directive: &str, file: Option<&str>) -> (r: Result<
    String,
    SnippetError,
>)
    ensures
        match r {
            Ok(s) => resolve_directive_spec(directive@, opt_view(file)) == Ok::<_, ErrorModel>(s@),
            Err(e) => resolve_directive_spec(directive@, opt_view(file)) == Err::<Seq<char>, _>(
                e@,
            ),
        },
{
    let n = directive.unicode_len();
    let bang = find_char_from(directive, 0, '!');
    if bang == n {
        return Ok(directive.to_owned());
    }
    let kind = substring_copy(directive, 0, bang);
    let ks = kind.as_str();
    let known = str_eq(ks, "source_file") || str_eq(ks, "function") || str_eq(ks, "function_body")
        || str_eq(ks, "struct") || str_eq(ks, "enum") || str_eq(ks, "trait") || str_eq(ks, "impl")
        || str_eq(ks, "trait_impl");
    if !known {
        return Ok(directive.to_owned());
    }
    let d = match parse_directive_args(directive) {
        Ok(d) => d,
        Err(e) => {
            return Err(e);
        },
    };
    let content = match file {
        Some(c) => c,
        None => {
            return Err(SnippetError::FileNotFound { path: d.file_path });
        },
    };
    if str_eq(ks, "source_file") {
        return Ok(trim_ws(content));
    }
    let parsed = match parse_source(content) {
        Some(p) => p,
        None => {
            return Err(SnippetError::SyntaxError { path: d.file_path });
        },
    };
    let item_ref = match &d.item {
        Some(s) => s.clone(),
        None => {
            return Err(SnippetError::MalformedDirective { directive: directive.to_owned() });
        },
    };
    let out: Result<String, SnippetError> = if str_eq(ks, "struct") {
        match find_struct(&parsed, item_ref.as_str()) {
            Some(i) => process_item_directive(&parsed, &d, i, false),
            None => Err(
                SnippetError::ElementNotFound {
                    kind: String::from_str("struct"),
                    name: item_ref.clone(),
                },
            ),
        }
    } else if str_eq(ks, "enum") {
        match find_enum(&parsed, item_ref.as_str()) {
            Some(i) => process_item_directive(&parsed, &d, i, false),
            None => Err(
                SnippetError::ElementNotFound {
                    kind: String::from_str("enum"),
                    name: item_ref.clone(),
                },
            ),
        }
    } else if str_eq(ks, "trait") {
        match find_trait(&parsed, item_ref.as_str()) {
            Some(i) => process_item_directive(&parsed, &d, i, false),
            None => Err(
                SnippetError::ElementNotFound {
                    kind: String::from_str("trait"),
                    name: item_ref.clone(),
                },
            ),
        }
    } else if str_eq(ks, "impl") {
        match find_struct_impl(&parsed, item_ref.as_str()) {
            Some(i) => process_item_directive(&parsed, &d, i, false),
            None => Err(
                SnippetError::ElementNotFound {
                    kind: String::from_str("impl"),
                    name: item_ref.clone(),
                },
            ),
        }
    } else if str_eq(ks, "trait_impl") {
        let irn = item_ref.as_str().unicode_len();
        let f = find_sub_from(item_ref.as_str(), 0, " for ");
        if f == irn {
            Err(
                SnippetError::ElementNotFound {
                    kind: String::from_str("trait impl"),
                    name: item_ref.clone(),
                },
            )
        } else {
            proof {
                reveal_strlit(" for ");
            }
            let tr_raw = substring_copy(item_ref.as_str(), 0, f);
            let ty_raw = substring_copy(item_ref.as_str(), f + 5, irn);
            let tr = trim_ws(tr_raw.as_str());
            let ty = trim_ws(ty_raw.as_str());
            match find_trait_impl(&parsed, tr.as_str(), ty.as_str()) {
                Some(i) => process_item_directive(&parsed, &d, i, false),
                None => Err(
                    SnippetError::ElementNotFound {
                        kind: String::from_str("trait impl"),
                        name: item_ref.clone(),
                    },
                ),
            }
        }
    } else if str_eq(ks, "function") {
        process_function_directive(&parsed, &d, &item_ref, false)
    } else {
        process_function_directive(&parsed, &d, &item_ref, true)
    };
    match out {
        Ok(s) => Ok(trim_ws(s.as_str())),
        Err(e) => Err(e),
    }
}

// ---------------------------------------------------------------------------
// Processing of a whole document
// ---------------------------------------------------------------------------

/// The views of the optional file contents.
pub open spec fn files_view(fs: Seq<Option<String>>) -> Seq<Option<Seq<char>>> {
    fs.map_values(
        |o: Option<String>|
            match o {
                Some(s) => Some(s@),
                None => None,
            },
    )
}

/// The file content for occurrence `k`: `None` when none was supplied.
pub open spec fn file_at(files: Seq<Option<Seq<char>>>, k: int) -> Option<Seq<char>> {
    if 0 <= k < files.len() {
        files[k]
    } else {
        None
    }
}

/// What one occurrence is replaced with, and the diagnostic it emits (if
/// any): the resolved substitution text, or the located one-line
/// diagnostic, which then stands both in the document and on the error
/// list.
pub open spec fn replacement_spec(
    s: Seq<char>,
    rel: Seq<char>,
    starts: Seq<int>,
    occ: (int, int),
    file: Option<Seq<char>>,
) -> (Seq<char>, Option<Seq<char>>) {
    let text = s.subrange(occ.0 + 3, occ.1 - 1);
    match resolve_directive_spec(text, file) {
        Ok(t) => (t, None),
        Err(e) => {
            let lc = line_col_spec(starts, occ.0);
            let diag = diagnostic_spec(rel, lc.0, lc.1, crate::error::message_spec(e));
            (diag, Some(diag))
        },
    }
}

/// The document text and diagnostics after the first `k` occurrences are
/// substituted: the text between occurrences is kept, each occurrence is
/// replaced as [`replacement_spec`] describes.
pub open spec fn assembled_pre(
    s: Seq<char>,
    rel: Seq<char>,
    starts: Seq<int>,
    occs: Seq<(int, int)>,
    files: Seq<Option<Seq<char>>>,
    k: int,
) -> (Seq<char>, Seq<Seq<char>>)
    decreases k,
{
    if k <= 0 {
        (Seq::empty(), Seq::empty())
    } else {
        let acc = assembled_pre(s, rel, starts, occs, files, k - 1);
        let prev_end = if k == 1 {
            0
        } else {
            occs[k - 2].1
        };
        let repl = replacement_spec(s, rel, starts, occs[k - 1], file_at(files, k - 1));
        (
            acc.0 + s.subrange(prev_end, occs[k - 1].0) + repl.0,
            match repl.1 {
                None => acc.1,
                Some(dg) => acc.1.push(dg),
            },
        )
    }
}

/// The whole document after substitution, and the diagnostics in document
/// order.
pub open spec fn process_markdown_spec(
    root: Seq<char>,
    source_path: Seq<char>,
    content: Seq<char>,
    files: Seq<Option<Seq<char>>>,
) -> (Seq<char>, Seq<Seq<char>>) {
    let occs = scan_spec(content);
    let starts = line_starts_spec(content);
    let rel = relative_path_spec(root, source_path);
    let acc = assembled_pre(content, rel, starts, occs, files, occs.len() as int);
    let tail_start = if occs.len() == 0 {
        0
    } else {
        occs.last().1
    };
    (acc.0 + content.subrange(tail_start, content.len() as int), acc.1)
}

/// Substitutes every directive occurrence of the document in place, as
/// [`process_markdown_spec`] describes: with the rendered snippet when the
/// directive resolves, with a located one-line diagnostic when it fails.
/// `files[k]` is the content of the file the `k`-th occurrence names
/// (`None` when unreadable); `root` and `source_path` only shape the
/// diagnostics' location prefix.  Returns the diagnostics in document
/// order; the run never aborts.
pub fn process_markdown(
    root: &str,
    source_path: &str,
    content: &mut String,
    files: &Vec<Option<String>>,
) -> (errs: Vec<String>)
    ensures
        final(content)@ == process_markdown_spec(
            root@,
            source_path@,
            old(content)@,
            files_view(files@),
        ).0,
        views_of(errs@) == process_markdown_spec(
            root@,
            source_path@,
            old(content)@,
            files_view(files@),
        ).1,
{
    let ghost orig = content@;
    let ghost fviews = files_view(files@);
    let occs = scan_directives(content.as_str());
    let ghost goccs = occs@.map_values(|t: (usize, usize)| (t.0 as int, t.1 as int));
    let starts = line_starts(content.as_str());
    let ghost gstarts = starts@.map_values(|u: usize| u as int);
    let rel = get_relative_path(root, source_path);
    let n = content.as_str().unicode_len();
    let mut out = String::new();
    let mut diags: Vec<String> = Vec::new();
    let mut prev: usize = 0;
    let mut k: usize = 0;
    proof {
        assert((out@, views_of(diags@)) =~= assembled_pre(orig, rel@, gstarts, goccs, fviews, 0));
    }
    while k < occs.len()
        invariant
            orig == content@,
            n == orig.len(),
            goccs == occs@.map_values(|t: (usize, usize)| (t.0 as int, t.1 as int)),
            goccs == scan_spec(orig),
            gstarts == starts@.map_values(|u: usize| u as int),
            gstarts == line_starts_spec(orig),
            fviews == files_view(files@),
            rel@ == relative_path_spec(root@, source_path@),
            forall|k2: int| 0 <= k2 < occs@.len() ==> #[trigger] occs@[k2].1 <= n && occs@[k2].0
                + 3 <= occs@[k2].1 - 1 && occs@[k2].1 >= 1,
            forall|k2: int| 0 <= k2 && k2 + 1 < occs@.len() ==> #[trigger] occs@[k2].1
                <= occs@[k2 + 1].0,
            k <= occs@.len(),
            prev == if k == 0 {
                0
            } else {
                occs@[k - 1].1
            },
            prev <= n,
            out@ == assembled_pre(orig, rel@, gstarts, goccs, fviews, k as int).0,
            views_of(diags@) =~= assembled_pre(orig, rel@, gstarts, goccs, fviews, k as int).1,
        decreases occs@.len() - k,
    {
        let (st, en) = occs[k];
        let between = substring_copy(content.as_str(), prev, st);
        out.append(between.as_str());
        let text = substring_copy(content.as_str(), st + 3, en - 1);
        let file_ref: Option<&str> = if k < files.len() {
            match &files[k] {
                Some(s) => Some(s.as_str()),
                None => None,
            }
        } else {
            None
        };
        proof {
            assert(opt_view(file_ref) == file_at(fviews, k as int));
            assert(goccs[k as int] == (st as int, en as int));
        }
        match process_include_rs_directive(text.as_str(), file_ref) {
            Ok(t) => {
                out.append(t.as_str());
            },
            Err(e) => {
                proof {
                    if orig.len() > 0 {
                        assert(line_starts_spec(orig)[0] == 0);
                    }
                    assert(gstarts.len() > 0);
                    assert(gstarts[0] == starts@[0]);
                }
                let (line, col) = find_line_and_col(&starts, st);
                let msg = e.message();
                let diag = format_diagnostic(rel.as_str(), line, col, msg.as_str());
                out.append(diag.as_str());
                proof {
                    assert(views_of(diags@.push(diag)) =~= views_of(diags@).push(diag@));
                }
                diags.push(diag);
            },
        }
        prev = en;
        k += 1;
    }
    let tail = substring_copy(content.as_str(), prev, n);
    out.append(tail.as_str());
    *content = out;
    diags
}

} // verus!
