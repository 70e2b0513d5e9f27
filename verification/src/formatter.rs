//! Rendering of located items back into snippet text.
//!
//! Whole items are re-indented with [`dedent`].  Function and method bodies
//! are rewrapped under a synthetic `fn main()` entry point and folded along
//! display markers: lines outside the marked region are emitted as hidden
//! lines (prefixed with `# ` so documentation tooling can collapse them),
//! lines inside it are emitted unchanged, and the marker lines themselves
//! are consumed.

use vstd::prelude::*;
use vstd::string::StrSliceExecFns;
use vstd::string::StringExecFns;

use crate::model::ImplEntry;
use crate::model::ItemKind;
use crate::model::SourceItem;
use crate::text::all_space;
use crate::text::indent_of;
use crate::text::join_nl;
use crate::text::join_with_newlines;
use crate::text::leading_ws;
use crate::text::lines_of;
use crate::text::lines_spec;
use crate::text::split_char;
use crate::text::split_nl;
use crate::text::str_eq;
use crate::text::substring_copy;
use crate::text::trim_spec;
use crate::text::trim_ws;
use crate::text::views_of;

verus! {

/// A line rendered as hidden: prefixed with `# ` and closed with a line
/// feed; a whitespace-only line contributes the bare prefix.
pub open spec fn hidden_line(l: Seq<char>) -> Seq<char> {
    if all_space(l) {
        seq!['#', ' ', '\n']
    } else {
        seq!['#', ' '] + l + seq!['\n']
    }
}

/// A line rendered as visible: emitted unchanged, closed with a line feed.
pub open spec fn visible_line(l: Seq<char>) -> Seq<char> {
    l + seq!['\n']
}

/// The concatenation of the given lines, each rendered hidden.
pub open spec fn cat_hidden(lines: Seq<Seq<char>>) -> Seq<char>
    decreases lines.len(),
{
    if lines.len() == 0 {
        Seq::empty()
    } else {
        cat_hidden(lines.drop_last()) + hidden_line(lines.last())
    }
}

/// The concatenation of the given lines, each rendered visible.
pub open spec fn cat_visible(lines: Seq<Seq<char>>) -> Seq<char>
    decreases lines.len(),
{
    if lines.len() == 0 {
        Seq::empty()
    } else {
        cat_visible(lines.drop_last()) + visible_line(lines.last())
    }
}

/// A whole block rendered hidden: every one of its lines prefixed.
pub open spec fn format_hidden_spec(s: Seq<char>) -> Seq<char> {
    cat_hidden(lines_spec(s))
}

/// A whole block rendered visible: every line closed with a line feed.
pub open spec fn format_visible_spec(s: Seq<char>) -> Seq<char> {
    cat_visible(lines_spec(s))
}

/// Renders `content` as a hidden block: every line gets the `# ` prefix
/// (a whitespace-only line only the bare prefix) and a closing line feed.
pub fn format_hidden(content: &str) -> (r: String)
    ensures
        r@ == format_hidden_spec(content@),
{
    let lines = lines_of(content);
    let mut out = String::new();
    let mut i: usize = 0;
    while i < lines.len()
        invariant
            views_of(lines@) == lines_spec(content@),
            i <= lines@.len(),
            out@ =~= cat_hidden(views_of(lines@).take(i as int)),
        decreases lines@.len() - i,
    {
        let l = &lines[i];
        let lw = leading_ws(l.as_str());
        if lw == l.as_str().unicode_len() {
            out.append("# \n");
            proof {
                reveal_strlit("# \n");
                assert("# \n"@ =~= seq!['#', ' ', '\n']);
            }
        } else {
            out.append("# ");
            out.append(l.as_str());
            out.append("\n");
            proof {
                reveal_strlit("# ");
                reveal_strlit("\n");
                assert("# "@ =~= seq!['#', ' ']);
                assert("\n"@ =~= seq!['\n']);
            }
        }
        proof {
            let vs = views_of(lines@);
            assert(vs.take(i + 1).drop_last() =~= vs.take(i as int));
            assert(vs.take(i + 1).last() == l@);
            assert(out@ =~= cat_hidden(vs.take(i + 1)));
        }
        i += 1;
    }
    proof {
        assert(views_of(lines@).take(lines@.len() as int) =~= views_of(lines@));
    }
    out
}

/// Renders `content` as a visible block: every line closed with a line
/// feed, otherwise unchanged.
pub fn format_visible(content: &str) -> (r: String)
    ensures
        r@ == format_visible_spec(content@),
{
    let lines = lines_of(content);
    let mut out = String::new();
    let mut i: usize = 0;
    while i < lines.len()
        invariant
            views_of(lines@) == lines_spec(content@),
            i <= lines@.len(),
            out@ =~= cat_visible(views_of(lines@).take(i as int)),
        decreases lines@.len() - i,
    {
        let l = &lines[i];
        out.append(l.as_str());
        out.append("\n");
        proof {
            reveal_strlit("\n");
            assert("\n"@ =~= seq!['\n']);
            let vs = views_of(lines@);
            assert(vs.take(i + 1).drop_last() =~= vs.take(i as int));
            assert(vs.take(i + 1).last() == l@);
            assert(out@ =~= cat_visible(vs.take(i + 1)));
        }
        i += 1;
    }
    proof {
        assert(views_of(lines@).take(lines@.len() as int) =~= views_of(lines@));
    }
    out
}

// ---------------------------------------------------------------------------
// Re-indentation of whole items
// ---------------------------------------------------------------------------

/// The indentation of a body line that counts for the common indentation:
/// whitespace-only lines do not count.
pub open spec fn indent_entry(l: Seq<char>) -> Option<int> {
    if all_space(l) {
        None
    } else {
        Some(indent_of(l))
    }
}

/// The smaller of two optional indentations.
pub open spec fn opt_min(a: Option<int>, b: Option<int>) -> Option<int> {
    match (a, b) {
        (None, None) => None,
        (Some(x), None) => Some(x),
        (None, Some(y)) => Some(y),
        (Some(x), Some(y)) => Some(if x < y { x } else { y }),
    }
}

/// The minimal indentation of the non-blank lines with index in `[1, i)`:
/// the first line carries the declaration and never counts.
pub open spec fn min_indent_pre(ls: Seq<Seq<char>>, i: int) -> Option<int>
    decreases i,
{
    if i <= 1 {
        None
    } else {
        opt_min(min_indent_pre(ls, i - 1), indent_entry(ls[i - 1]))
    }
}

/// One line of the dedented text: blank lines become empty, the first line
/// is kept, every other line loses the common indentation `m`.
pub open spec fn dedent_line_spec(i: int, l: Seq<char>, m: int) -> Seq<char> {
    if all_space(l) {
        Seq::empty()
    } else if i == 0 {
        l
    } else if l.len() >= m {
        l.subrange(m, l.len() as int)
    } else {
        l
    }
}

/// The common leading whitespace of all lines but the first removed; the
/// first line (the declaration signature) is kept as it stands, and
/// whitespace-only lines become empty.
pub open spec fn dedent_spec(s: Seq<char>) -> Seq<char> {
    let ls = lines_spec(s);
    if ls.len() == 0 {
        Seq::empty()
    } else {
        let m = match min_indent_pre(ls, ls.len() as int) {
            Some(v) => v,
            None => 0,
        };
        join_nl(ls.map(|i: int, l: Seq<char>| dedent_line_spec(i, l, m)))
    }
}

/// Removes the common leading whitespace of all lines after the first, as
/// [`dedent_spec`] describes.
pub fn dedent(text: &str) -> (r: String)
    ensures
        r@ == dedent_spec(text@),
{
    let lines = lines_of(text);
    let n = lines.len();
    if n == 0 {
        return String::new();
    }
    let ghost ls = views_of(lines@);
    let mut found = false;
    let mut m: usize = 0;
    let mut i: usize = 1;
    while i < n
        invariant
            ls == views_of(lines@),
            ls == lines_spec(text@),
            n == ls.len(),
            1 <= i <= n,
            min_indent_pre(ls, i as int) == if found {
                Some(m as int)
            } else {
                None::<int>
            },
        decreases n - i,
    {
        let l = &lines[i];
        let lw = leading_ws(l.as_str());
        let ll = l.as_str().unicode_len();
        if lw < ll {
            if !found || lw < m {
                m = lw;
            }
            found = true;
        }
        i += 1;
    }
    let md: usize = if found {
        m
    } else {
        0
    };
    let ghost mapped = ls.map(|i: int, l: Seq<char>| dedent_line_spec(i, l, md as int));
    let mut outl: Vec<String> = Vec::new();
    let mut i: usize = 0;
    while i < n
        invariant
            ls == views_of(lines@),
            n == ls.len(),
            i <= n,
            mapped == ls.map(|i: int, l: Seq<char>| dedent_line_spec(i, l, md as int)),
            views_of(outl@) =~= mapped.take(i as int),
        decreases n - i,
    {
        let l = &lines[i];
        let lw = leading_ws(l.as_str());
        let ll = l.as_str().unicode_len();
        let nl: String = if lw == ll {
            String::new()
        } else if i == 0 {
            l.clone()
        } else if ll >= md {
            proof {
                assert(l@.subrange(md as int, ll as int) == dedent_line_spec(i as int, ls[i as int], md as int));
            }
            substring_copy(l.as_str(), md, ll)
        } else {
            l.clone()
        };
        proof {
            assert(nl@ == mapped[i as int]);
            assert(views_of(outl@.push(nl)) =~= views_of(outl@).push(nl@));
            assert(mapped.take(i + 1) =~= mapped.take(i as int).push(mapped[i as int]));
        }
        outl.push(nl);
        i += 1;
    }
    proof {
        assert(mapped.take(n as int) =~= mapped);
    }
    join_with_newlines(&outl)
}

/// Renders a whole top-level item: its source text, re-indented.
pub fn format_item(item: &SourceItem) -> (r: String)
    ensures
        r@ == dedent_spec(item@.text),
{
    dedent(item.text.as_str())
}

/// Renders a whole method of an impl block: its source text, re-indented.
pub fn format_method(method: &ImplEntry) -> (r: String)
    requires
        method@.is_fn,
    ensures
        r@ == dedent_spec(method@.text),
{
    dedent(method.text.as_str())
}

// ---------------------------------------------------------------------------
// Body rendering with display-marker folding
// ---------------------------------------------------------------------------

/// A body line with the four indentation characters removed (shorter lines
/// are kept whole).
pub open spec fn strip_indent(l: Seq<char>) -> Seq<char> {
    if l.len() >= 4 {
        l.subrange(4, l.len() as int)
    } else {
        l
    }
}

/// Does this body line open the display region?
pub open spec fn is_start_marker(l: Seq<char>) -> bool {
    trim_spec(strip_indent(l)) == "// DISPLAY START"@
}

/// Does this body line close the display region?
pub open spec fn is_end_marker(l: Seq<char>) -> bool {
    trim_spec(strip_indent(l)) == "// DISPLAY END"@
}

/// Does any body line (neither the signature nor the closing line) open
/// the display region?
pub open spec fn has_start_marker(ls: Seq<Seq<char>>) -> bool {
    exists|j: int| 1 <= j < ls.len() - 1 && is_start_marker(ls[j])
}

/// Does any body line close the display region?
pub open spec fn has_end_marker(ls: Seq<Seq<char>>) -> bool {
    exists|j: int| 1 <= j < ls.len() - 1 && is_end_marker(ls[j])
}

/// The rendered body lines from index `j` on (up to, not including, the
/// closing line), given whether the opening and closing markers exist at
/// all and whether they lie before index `j`.  Marker lines are consumed;
/// a line before the opening marker or after the closing one is hidden;
/// every other line is visible.
pub open spec fn body_mid(
    ls: Seq<Seq<char>>,
    j: int,
    has_s: bool,
    has_e: bool,
    started: bool,
    ended: bool,
) -> Seq<char>
    decreases ls.len() - j,
{
    if j < 1 || j >= ls.len() - 1 {
        Seq::empty()
    } else if is_start_marker(ls[j]) {
        body_mid(ls, j + 1, has_s, has_e, true, ended)
    } else if is_end_marker(ls[j]) {
        body_mid(ls, j + 1, has_s, has_e, started, true)
    } else {
        let stripped = strip_indent(ls[j]);
        let hide = (has_s && !started) || (has_e && ended);
        (if hide {
            hidden_line(stripped)
        } else {
            visible_line(stripped)
        }) + body_mid(ls, j + 1, has_s, has_e, started, ended)
    }
}

/// A function or method body rendered as an independently runnable
/// snippet: the signature is replaced by a hidden `fn main() {` line, the
/// closing line is hidden, and the body lines are folded along the display
/// markers.  A single-line body renders as the empty string.
pub open spec fn body_spec(text: Seq<char>) -> Seq<char> {
    let ls = split_nl(text);
    if ls.len() <= 1 {
        Seq::empty()
    } else {
        "# fn main() {\n"@ + body_mid(
            ls,
            1,
            has_start_marker(ls),
            has_end_marker(ls),
            false,
            false,
        ) + seq!['#', ' '] + trim_spec(ls.last())
    }
}

/// Renders a body text as [`body_spec`] describes.
fn render_body(text: &str) -> (r: String)
    ensures
        r@ == body_spec(text@),
{
    let lines = split_char(text, '\n');
    let n = lines.len();
    let ghost ls = views_of(lines@);
    if n <= 1 {
        return String::new();
    }
    // Scan the body lines for the markers.
    let mut has_s = false;
    let mut has_e = false;
    let mut j: usize = 1;
    while j < n - 1
        invariant
            ls == views_of(lines@),
            n == ls.len(),
            2 <= n,
            1 <= j <= n - 1,
            has_s == exists|k: int| 1 <= k < j && is_start_marker(ls[k]),
            has_e == exists|k: int| 1 <= k < j && is_end_marker(ls[k]),
        decreases n - j,
    {
        let stripped = strip_line(&lines[j]);
        let t = trim_ws(stripped.as_str());
        let st = str_eq(t.as_str(), "// DISPLAY START");
        let en = str_eq(t.as_str(), "// DISPLAY END");
        proof {
            assert(ls[j as int] == lines@[j as int]@);
            assert(st == is_start_marker(ls[j as int]));
            assert(en == is_end_marker(ls[j as int]));
        }
        if st {
            has_s = true;
        }
        if en {
            has_e = true;
        }
        proof {
            if has_s {
                assert(exists|k: int| 1 <= k < j + 1 && is_start_marker(ls[k]));
            } else {
                assert(!is_start_marker(ls[j as int]));
            }
            if has_e {
                assert(exists|k: int| 1 <= k < j + 1 && is_end_marker(ls[k]));
            }
        }
        j += 1;
    }
    proof {
        assert(has_s == has_start_marker(ls));
        assert(has_e == has_end_marker(ls));
    }
    let mut out = String::from_str("# fn main() {\n");
    let mut started = false;
    let mut ended = false;
    let mut j: usize = 1;
    while j < n - 1
        invariant
            ls == views_of(lines@),
            n == ls.len(),
            2 <= n,
            1 <= j <= n - 1,
            has_s == has_start_marker(ls),
            has_e == has_end_marker(ls),
            "# fn main() {\n"@ + body_mid(ls, 1, has_s, has_e, false, false) =~= out@ + body_mid(
                ls,
                j as int,
                has_s,
                has_e,
                started,
                ended,
            ),
        decreases n - j,
    {
        let stripped = strip_line(&lines[j]);
        let t = trim_ws(stripped.as_str());
        if str_eq(t.as_str(), "// DISPLAY START") {
            started = true;
        } else if str_eq(t.as_str(), "// DISPLAY END") {
            ended = true;
        } else {
            let hide = (has_s && !started) || (has_e && ended);
            if hide {
                let lw = leading_ws(stripped.as_str());
                if lw == stripped.as_str().unicode_len() {
                    out.append("# \n");
                    proof {
                        reveal_strlit("# \n");
                        assert("# \n"@ =~= seq!['#', ' ', '\n']);
                    }
                } else {
                    out.append("# ");
                    out.append(stripped.as_str());
                    out.append("\n");
                    proof {
                        reveal_strlit("# ");
                        reveal_strlit("\n");
                        assert("# "@ =~= seq!['#', ' ']);
                        assert("\n"@ =~= seq!['\n']);
                    }
                }
            } else {
                out.append(stripped.as_str());
                out.append("\n");
                proof {
                    reveal_strlit("\n");
                    assert("\n"@ =~= seq!['\n']);
                }
            }
        }
        j += 1;
    }
    out.append("# ");
    proof {
        reveal_strlit("# ");
        assert("# "@ =~= seq!['#', ' ']);
    }
    let t = trim_ws(lines[n - 1].as_str());
    out.append(t.as_str());
    proof {
        assert(ls.last() == ls[n - 1]);
    }
    out
}

/// Drops the four indentation characters of a body line, keeping shorter
/// lines whole.
fn strip_line(l: &String) -> (r: String)
    ensures
        r@ == strip_indent(l@),
{
    let ll = l.as_str().unicode_len();
    if ll >= 4 {
        substring_copy(l.as_str(), 4, ll)
    } else {
        l.clone()
    }
}

/// Renders the body of a top-level function, as [`body_spec`] describes.
pub fn format_function_body(item: &SourceItem) -> (r: String)
    requires
        item@.kind == ItemKind::Function,
    ensures
        r@ == body_spec(item@.text),
{
    render_body(item.text.as_str())
}

/// Renders the body of a method of an impl block, as [`body_spec`]
/// describes.
pub fn format_method_body(method: &ImplEntry) -> (r: String)
    requires
        method@.is_fn,
    ensures
        r@ == body_spec(method@.text),
{
    render_body(method.text.as_str())
}

} // verus!
