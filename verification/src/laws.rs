//! The library's global laws, stated and proved once over the
//! specifications that the executable functions are verified against.

use vstd::prelude::*;

use crate::formatter::body_mid;
use crate::formatter::body_spec;
use crate::formatter::dedent_spec;
use crate::formatter::hidden_line;
use crate::formatter::is_end_marker;
use crate::formatter::is_start_marker;
use crate::formatter::strip_indent;
use crate::formatter::visible_line;
use crate::locator::first_match_from;
use crate::locator::item_matches;
use crate::locator::FreeResolution;
use crate::locator::Matcher;
use crate::locator::resolve_free_ok;
use crate::model::ItemKind;
use crate::model::ItemModel;
use crate::output::cat_visible_blocks;
use crate::parser::covered_by;
use crate::parser::hidden_indices_spec;
use crate::parser::hidden_pre;
use crate::parser::resolve_dep_spec;
use crate::parser::resolve_deps_pre;
use crate::parser::resolve_deps_spec;
use crate::parser::ResolvedDep;
use crate::text::split_nl;
use crate::text::trim_spec;

verus! {

// ---------------------------------------------------------------------------
// Whole-item rendering is deterministic
// ---------------------------------------------------------------------------

/// Rendering the same resolved element twice yields byte-identical text:
/// the rendered text is a function of the element's source text alone.
pub proof fn lemma_item_rendering_deterministic(item: ItemModel, r1: Seq<char>, r2: Seq<char>)
    requires
        r1 == dedent_spec(item.text),
        r2 == dedent_spec(item.text),
    ensures
        r1 == r2,
{
}

// ---------------------------------------------------------------------------
// The hidden/visible partition is complete
// ---------------------------------------------------------------------------

proof fn lemma_hidden_pre_props(primary: int, visible: Seq<ResolvedDep>, k: int)
    ensures
        forall|i: int| #[trigger]
            hidden_pre(primary, visible, k).contains(i) <==> (0 <= i < k && i != primary
                && !covered_by(visible, i)),
    decreases k,
{
    if k > 0 {
        lemma_hidden_pre_props(primary, visible, k - 1);
        let rest = hidden_pre(primary, visible, k - 1);
        let cur = hidden_pre(primary, visible, k);
        if k - 1 == primary || covered_by(visible, k - 1) {
            assert(cur == rest);
        } else {
            assert(cur == rest.push(k - 1));
            assert forall|i: int| #[trigger]
                cur.contains(i) <==> (0 <= i < k && i != primary && !covered_by(visible, i)) by {
                if rest.contains(i) || i == k - 1 {
                    if i == k - 1 {
                        assert(cur[cur.len() - 1] == k - 1);
                        assert(cur.contains(i));
                    } else {
                        let idx = choose|idx: int| 0 <= idx < rest.len() && rest[idx] == i;
                        assert(cur[idx] == i);
                        assert(cur.contains(i));
                    }
                }
                if cur.contains(i) {
                    let idx = choose|idx: int| 0 <= idx < cur.len() && cur[idx] == i;
                    if idx < rest.len() {
                        assert(rest[idx] == i);
                        assert(rest.contains(i));
                    } else {
                        assert(i == k - 1);
                    }
                }
            }
        }
    }
}

/// Completeness of the hide-everything-else policy: a top-level item is
/// hidden exactly when it is neither the primary item nor covered by a
/// visible reference, so the hidden items, the visibly referenced items
/// and the primary item together cover the whole file, without overlap.
pub proof fn lemma_hidden_visible_partition(n: int, primary: int, visible: Seq<ResolvedDep>)
    requires
        0 <= primary < n,
    ensures
        forall|i: int|
            0 <= i < n ==> (#[trigger] hidden_indices_spec(n, primary, visible).contains(i) <==> (
            i != primary && !covered_by(visible, i))),
        !hidden_indices_spec(n, primary, visible).contains(primary),
        forall|i: int| #[trigger]
            hidden_indices_spec(n, primary, visible).contains(i) ==> 0 <= i < n,
{
    lemma_hidden_pre_props(primary, visible, n);
}

// ---------------------------------------------------------------------------
// Marker folding hides exactly the lines outside the display region
// ---------------------------------------------------------------------------

/// The body lines folded along markers at `a` (opening) and `b` (closing):
/// the marker lines contribute nothing, every line before `a` or after `b`
/// is a hidden line, every line between them a visible line.
pub open spec fn folded_lines(ls: Seq<Seq<char>>, a: int, b: int, j: int) -> Seq<char>
    decreases ls.len() - j,
{
    if j < 1 || j >= ls.len() - 1 {
        Seq::empty()
    } else {
        let rest = folded_lines(ls, a, b, j + 1);
        if j == a || j == b {
            rest
        } else if j < a || j > b {
            hidden_line(strip_indent(ls[j])) + rest
        } else {
            visible_line(strip_indent(ls[j])) + rest
        }
    }
}

proof fn lemma_fold_from(ls: Seq<Seq<char>>, a: int, b: int, j: int)
    requires
        1 <= a < b <= ls.len() - 2,
        forall|k: int| 1 <= k < ls.len() - 1 ==> (is_start_marker(#[trigger] ls[k]) <==> k == a),
        forall|k: int| 1 <= k < ls.len() - 1 ==> (is_end_marker(#[trigger] ls[k]) <==> k == b),
        1 <= j,
    ensures
        body_mid(ls, j, true, true, j > a, j > b) == folded_lines(ls, a, b, j),
    decreases ls.len() - j,
{
    if j < ls.len() - 1 {
        if j == a {
            lemma_fold_from(ls, a, b, j + 1);
            assert(body_mid(ls, j, true, true, false, j > b) == body_mid(
                ls,
                j + 1,
                true,
                true,
                true,
                j > b,
            ));
        } else if j == b {
            lemma_fold_from(ls, a, b, j + 1);
        } else {
            lemma_fold_from(ls, a, b, j + 1);
        }
    }
}

/// Marker-fold correctness: for a body whose lines hold exactly one
/// opening marker, at line `a`, and one closing marker, at line `b`
/// (`a < b`, both strictly inside the body), the rendered body is the
/// hidden synthetic signature line, then every line before `a` and after
/// `b` rendered hidden and every line between them rendered visible — the
/// marker lines themselves never appear — and the hidden closing line.
pub proof fn lemma_marker_fold(text: Seq<char>, a: int, b: int)
    requires
        1 <= a < b <= split_nl(text).len() - 2,
        forall|k: int|
            1 <= k < split_nl(text).len() - 1 ==> (is_start_marker(
                #[trigger] split_nl(text)[k],
            ) <==> k == a),
        forall|k: int|
            1 <= k < split_nl(text).len() - 1 ==> (is_end_marker(
                #[trigger] split_nl(text)[k],
            ) <==> k == b),
    ensures
        body_spec(text) == "# fn main() {\n"@ + folded_lines(split_nl(text), a, b, 1) + seq![
            '#',
            ' ',
        ] + trim_spec(split_nl(text).last()),
{
    let ls = split_nl(text);
    assert(is_start_marker(ls[a]));
    assert(is_end_marker(ls[b]));
    assert(crate::formatter::has_start_marker(ls));
    assert(crate::formatter::has_end_marker(ls));
    lemma_fold_from(ls, a, b, 1);
}

// ---------------------------------------------------------------------------
// Dependency order is preserved
// ---------------------------------------------------------------------------

proof fn lemma_deps_pre_pointwise(src: Seq<ItemModel>, deps: Seq<Seq<char>>, k: int)
    requires
        0 <= k,
        resolve_deps_pre(src, deps, k) is Ok,
    ensures
        resolve_deps_pre(src, deps, k)->Ok_0.len() == k,
        forall|k2: int|
            0 <= k2 < k ==> Some(#[trigger] resolve_deps_pre(src, deps, k)->Ok_0[k2])
                == resolve_dep_spec(src, deps[k2]),
    decreases k,
{
    if k > 0 {
        lemma_deps_pre_pointwise(src, deps, k - 1);
    }
}

/// Order preservation: when a directive's dependency list resolves, the
/// visible sequence has one entry per listed reference, and its `k`-th
/// entry is the resolution of the `k`-th reference — the directive's
/// declared order, regardless of the declaration order in the source file.
pub proof fn lemma_dependency_order(
    src: Seq<ItemModel>,
    deps: Seq<Seq<char>>,
    visible: Seq<ResolvedDep>,
)
    requires
        resolve_deps_spec(src, deps) == Ok::<Seq<ResolvedDep>, Seq<char>>(visible),
    ensures
        visible.len() == deps.len(),
        forall|k: int|
            0 <= k < deps.len() ==> Some(#[trigger] visible[k]) == resolve_dep_spec(src, deps[k]),
{
    lemma_deps_pre_pointwise(src, deps, deps.len() as int);
}

/// The composed visible text presents block sequences in order: composing
/// a concatenation of block lists is the concatenation of their
/// compositions, so a block never moves past another.
pub proof fn lemma_visible_blocks_append(b1: Seq<Seq<char>>, b2: Seq<Seq<char>>)
    ensures
        cat_visible_blocks(b1 + b2) == cat_visible_blocks(b1) + cat_visible_blocks(b2),
    decreases b2.len(),
{
    if b2.len() == 0 {
        assert(b1 + b2 =~= b1);
        assert(cat_visible_blocks(b1) + cat_visible_blocks(b2) =~= cat_visible_blocks(b1));
    } else {
        assert((b1 + b2).drop_last() =~= b1 + b2.drop_last());
        lemma_visible_blocks_append(b1, b2.drop_last());
        assert((b1 + b2).last() == b2.last());
        assert(cat_visible_blocks(b1) + cat_visible_blocks(b2) =~= cat_visible_blocks(b1)
            + cat_visible_blocks(b2.drop_last()) + crate::formatter::format_visible_spec(
            b2.last(),
        ));
    }
}

// ---------------------------------------------------------------------------
// Free names prefer top-level functions
// ---------------------------------------------------------------------------

proof fn lemma_first_match_exists(src: Seq<ItemModel>, m: Matcher, from: int, i: int)
    requires
        0 <= from <= i < src.len(),
        item_matches(src[i], m),
    ensures
        first_match_from(src, m, from) is Some,
    decreases src.len() - from,
{
    if !item_matches(src[from], m) {
        lemma_first_match_exists(src, m, from + 1, i);
    }
}

/// Name-resolution precedence: in a file that holds a top-level function
/// named `name` (even if some type also has a method of that name), a free
/// reference to `name` resolves to a top-level function, never to a
/// method.
pub proof fn lemma_free_name_precedence(
    src: Seq<ItemModel>,
    name: Seq<char>,
    i: int,
    r: FreeResolution,
)
    requires
        0 <= i < src.len(),
        src[i].kind == ItemKind::Function,
        src[i].name == name,
        resolve_free_ok(src, name, r),
    ensures
        r is Function,
{
    lemma_first_match_exists(src, Matcher::Function(name), 0, i);
}

} // verus!
