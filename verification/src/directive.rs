//! The directive grammar.
//!
//! A directive has the shape
//!
//! ```text
//! kind!("file/path.rs"[, item][, [dep, dep, ...]])
//! ```
//!
//! where `kind` is one or more lower-case letters or underscores, the file
//! path is one or more characters between double quotes, the optional item
//! reference is free text up to the next delimiter (trimmed), and the
//! optional dependency list is a comma-separated, bracketed list whose
//! entries are trimmed.  An empty bracket pair (or no brackets at all)
//! yields zero dependencies.  Whitespace, including line breaks, is allowed
//! between the tokens.  Text that does not match this shape fails with a
//! malformed-directive error.

use vstd::prelude::*;
use vstd::string::StrSliceExecFns;

use crate::error::ErrorModel;
use crate::error::SnippetError;
use crate::text::find_char_from;
use crate::text::is_space;
use crate::text::is_space_char;
use crate::text::next_pos;
use crate::text::split_char;
use crate::text::split_sep;
use crate::text::substring_copy;
use crate::text::trim_spec;
use crate::text::trim_ws;
use crate::text::views_of;

verus! {

/// A parsed directive: the referenced file, the primary item reference (if
/// any), and the auxiliary dependency references in declaration order.
#[derive(Debug)]
pub struct Directive {
    pub file_path: String,
    pub item: Option<String>,
    pub extra_items: Vec<String>,
}

/// The mathematical view of a [`Directive`].
pub struct DirectiveModel {
    pub file_path: Seq<char>,
    pub item: Option<Seq<char>>,
    pub extra_items: Seq<Seq<char>>,
}

impl View for Directive {
    type V = DirectiveModel;

    open spec fn view(&self) -> DirectiveModel {
        DirectiveModel {
            file_path: self.file_path@,
            item: match self.item {
                Some(ref s) => Some(s@),
                None => None,
            },
            extra_items: views_of(self.extra_items@),
        }
    }
}

/// May the character stand in a directive kind name?
pub open spec fn is_kind_char(c: char) -> bool {
    ('a' as u32 <= c as u32 && c as u32 <= 'z' as u32) || c == '_'
}

/// Does the character end an item reference?
pub open spec fn is_delim_char(c: char) -> bool {
    c == ',' || c == ')' || c == '[' || c == ']'
}

/// Executable test for [`is_kind_char`].
fn is_kind_c(c: char) -> (r: bool)
    ensures
        r == is_kind_char(c),
{
    (('a' as u32) <= (c as u32) && (c as u32) <= ('z' as u32)) || c == '_'
}

/// Executable test for [`is_delim_char`].
fn is_delim_c(c: char) -> (r: bool)
    ensures
        r == is_delim_char(c),
{
    c == ',' || c == ')' || c == '[' || c == ']'
}

/// The position of the first non-whitespace character at or after `from`
/// (or the length of `s` when there is none).
pub open spec fn scan_ws(s: Seq<char>, from: int) -> int
    decreases s.len() - from,
{
    if from < 0 {
        -1
    } else if from >= s.len() {
        s.len() as int
    } else if is_space(s[from]) {
        scan_ws(s, from + 1)
    } else {
        from
    }
}

/// Any position at or after `from` with only whitespace before it and a
/// non-whitespace character (or the end) at it equals `scan_ws`.
pub proof fn lemma_scan_ws_unique(s: Seq<char>, from: int, k: int)
    requires
        0 <= from <= k <= s.len(),
        forall|j: int| from <= j < k ==> is_space(s[j]),
        k < s.len() ==> !is_space(s[k]),
    ensures
        scan_ws(s, from) == k,
    decreases s.len() - from,
{
    if from < s.len() && is_space(s[from]) {
        lemma_scan_ws_unique(s, from + 1, k);
    }
}

/// Skips whitespace characters, starting at `from`.
pub fn skip_ws(s: &str, from: usize) -> (r: usize)
    requires
        from <= s@.len(),
    ensures
        r == scan_ws(s@, from as int),
        from <= r <= s@.len(),
        r < s@.len() ==> !is_space(s@[r as int]),
{
    let n = s.unicode_len();
    let mut i: usize = from;
    while i < n && is_space_char(s.get_char(i))
        invariant
            n == s@.len(),
            from <= i <= n,
            forall|j: int| from <= j < i ==> is_space(s@[j]),
        decreases n - i,
    {
        i += 1;
    }
    proof {
        lemma_scan_ws_unique(s@, from as int, i as int);
    }
    i
}

/// The position of the first character at or after `from` that cannot
/// stand in a kind name (or the length of `s`).
pub open spec fn scan_kind(s: Seq<char>, from: int) -> int
    decreases s.len() - from,
{
    if from < 0 {
        -1
    } else if from >= s.len() {
        s.len() as int
    } else if is_kind_char(s[from]) {
        scan_kind(s, from + 1)
    } else {
        from
    }
}

proof fn lemma_scan_kind_unique(s: Seq<char>, from: int, k: int)
    requires
        0 <= from <= k <= s.len(),
        forall|j: int| from <= j < k ==> is_kind_char(s[j]),
        k < s.len() ==> !is_kind_char(s[k]),
    ensures
        scan_kind(s, from) == k,
    decreases s.len() - from,
{
    if from < s.len() && is_kind_char(s[from]) {
        lemma_scan_kind_unique(s, from + 1, k);
    }
}

/// Skips kind-name characters, starting at `from`.
fn skip_kind(s: &str, from: usize) -> (r: usize)
    requires
        from <= s@.len(),
    ensures
        r == scan_kind(s@, from as int),
        from <= r <= s@.len(),
{
    let n = s.unicode_len();
    let mut i: usize = from;
    while i < n && is_kind_c(s.get_char(i))
        invariant
            n == s@.len(),
            from <= i <= n,
            forall|j: int| from <= j < i ==> is_kind_char(s@[j]),
        decreases n - i,
    {
        i += 1;
    }
    proof {
        lemma_scan_kind_unique(s@, from as int, i as int);
    }
    i
}

/// The position of the first delimiter character at or after `from` (or
/// the length of `s`).
pub open spec fn scan_item(s: Seq<char>, from: int) -> int
    decreases s.len() - from,
{
    if from < 0 {
        -1
    } else if from >= s.len() {
        s.len() as int
    } else if !is_delim_char(s[from]) {
        scan_item(s, from + 1)
    } else {
        from
    }
}

proof fn lemma_scan_item_unique(s: Seq<char>, from: int, k: int)
    requires
        0 <= from <= k <= s.len(),
        forall|j: int| from <= j < k ==> !is_delim_char(s[j]),
        k < s.len() ==> is_delim_char(s[k]),
    ensures
        scan_item(s, from) == k,
    decreases s.len() - from,
{
    if from < s.len() && !is_delim_char(s[from]) {
        lemma_scan_item_unique(s, from + 1, k);
    }
}

/// Skips item-reference characters, starting at `from`.
fn skip_item(s: &str, from: usize) -> (r: usize)
    requires
        from <= s@.len(),
    ensures
        r == scan_item(s@, from as int),
        from <= r <= s@.len(),
        r < s@.len() ==> is_delim_char(s@[r as int]),
{
    let n = s.unicode_len();
    let mut i: usize = from;
    while i < n && !is_delim_c(s.get_char(i))
        invariant
            n == s@.len(),
            from <= i <= n,
            forall|j: int| from <= j < i ==> !is_delim_char(s@[j]),
        decreases n - i,
    {
        i += 1;
    }
    proof {
        lemma_scan_item_unique(s@, from as int, i as int);
    }
    i
}

/// The dependency references of a bracketed list's inner text: none when
/// the text is whitespace only, else the comma-separated parts, trimmed.
pub open spec fn deps_of(inner: Seq<char>) -> Seq<Seq<char>> {
    if trim_spec(inner).len() == 0 {
        Seq::empty()
    } else {
        split_sep(inner, ',').map_values(|x: Seq<char>| trim_spec(x))
    }
}

/// Is the rest of `s` from `p` on whitespace only?  If so, the parse ends
/// with the given result.
pub open spec fn end_spec(s: Seq<char>, p: int, d: DirectiveModel) -> Option<DirectiveModel> {
    if scan_ws(s, p) == s.len() {
        Some(d)
    } else {
        None
    }
}

/// Parses a bracketed dependency list at `p` (which holds `[`), then the
/// closing parenthesis and the end of the text.
pub open spec fn deps_spec(s: Seq<char>, p: int, path: Seq<char>, item: Option<Seq<char>>) -> Option<
    DirectiveModel,
> {
    let b = next_pos(s, p + 1, ']');
    if b >= s.len() {
        None
    } else {
        let q = scan_ws(s, b + 1);
        if q < s.len() && s[q] == ')' {
            end_spec(
                s,
                q + 1,
                DirectiveModel {
                    file_path: path,
                    item,
                    extra_items: deps_of(s.subrange(p + 1, b)),
                },
            )
        } else {
            None
        }
    }
}

/// Parses what follows the quoted file path: a closing parenthesis, or an
/// item reference and/or a dependency list.
pub open spec fn after_path_spec(s: Seq<char>, p: int, path: Seq<char>) -> Option<DirectiveModel> {
    let q = scan_ws(s, p);
    if q < s.len() && s[q] == ')' {
        end_spec(s, q + 1, DirectiveModel { file_path: path, item: None, extra_items: Seq::empty() })
    } else if q < s.len() && s[q] == ',' {
        let q2 = scan_ws(s, q + 1);
        if q2 < s.len() && s[q2] == '[' {
            deps_spec(s, q2, path, None)
        } else {
            let e = scan_item(s, q2);
            if e == q2 || e >= s.len() {
                None
            } else {
                let item = trim_spec(s.subrange(q2, e));
                if s[e] == ')' {
                    end_spec(
                        s,
                        e + 1,
                        DirectiveModel { file_path: path, item: Some(item), extra_items: Seq::empty() },
                    )
                } else if s[e] == ',' {
                    let q4 = scan_ws(s, e + 1);
                    if q4 < s.len() && s[q4] == '[' {
                        deps_spec(s, q4, path, Some(item))
                    } else {
                        None
                    }
                } else {
                    None
                }
            }
        }
    } else {
        None
    }
}

/// The parse of a whole directive text, as the module documentation
/// describes the grammar; `None` when the text does not match it.
pub open spec fn parse_directive_spec(s: Seq<char>) -> Option<DirectiveModel> {
    let p0 = scan_ws(s, 0);
    let p1 = scan_kind(s, p0);
    if p1 == p0 || p1 >= s.len() || s[p1] != '!' {
        None
    } else {
        let p2 = scan_ws(s, p1 + 1);
        if p2 >= s.len() || s[p2] != '(' {
            None
        } else {
            let p3 = scan_ws(s, p2 + 1);
            if p3 >= s.len() || s[p3] != '"' {
                None
            } else {
                let p4 = next_pos(s, p3 + 1, '"');
                if p4 >= s.len() || p4 == p3 + 1 {
                    None
                } else {
                    after_path_spec(s, p4 + 1, s.subrange(p3 + 1, p4))
                }
            }
        }
    }
}

/// The malformed-directive error for this text.
fn malformed(directive: &str) -> (r: SnippetError)
    ensures
        r@ == (ErrorModel::MalformedDirective { directive: directive@ }),
{
    SnippetError::MalformedDirective { directive: directive.to_owned() }
}

/// Parses the trimmed dependency references out of a bracket pair's inner
/// text.
fn parse_deps(inner: &str) -> (r: Vec<String>)
    ensures
        views_of(r@) == deps_of(inner@),
{
    let t = trim_ws(inner);
    if t.as_str().unicode_len() == 0 {
        let r: Vec<String> = Vec::new();
        proof {
            assert(views_of(r@) =~= deps_of(inner@));
        }
        return r;
    }
    let parts = split_char(inner, ',');
    let mut out: Vec<String> = Vec::new();
    let ghost mapped = split_sep(inner@, ',').map_values(|x: Seq<char>| trim_spec(x));
    let mut i: usize = 0;
    while i < parts.len()
        invariant
            views_of(parts@) == split_sep(inner@, ','),
            mapped == split_sep(inner@, ',').map_values(|x: Seq<char>| trim_spec(x)),
            i <= parts@.len(),
            views_of(out@) =~= mapped.take(i as int),
        decreases parts@.len() - i,
    {
        let t = trim_ws(parts[i].as_str());
        proof {
            assert(views_of(parts@)[i as int] == parts@[i as int]@);
            assert(t@ == mapped[i as int]);
            assert(views_of(out@.push(t)) =~= views_of(out@).push(t@));
            assert(mapped.take(i + 1) =~= mapped.take(i as int).push(mapped[i as int]));
        }
        out.push(t);
        i += 1;
    }
    proof {
        assert(mapped.take(mapped.len() as int) =~= mapped);
    }
    out
}

/// Parses directive text into a [`Directive`], exactly when the text
/// matches the grammar ([`parse_directive_spec`]).
pub fn parse_directive_args(directive: &str) -> (r: Result<Directive, SnippetError>)
    ensures
        match r {
            Ok(d) => parse_directive_spec(directive@) == Some(d@),
            Err(e) => {
                &&& parse_directive_spec(directive@) is None
                &&& e@ == (ErrorModel::MalformedDirective { directive: directive@ })
            },
        },
{
    let n = directive.unicode_len();
    let p0 = skip_ws(directive, 0);
    let p1 = skip_kind(directive, p0);
    if p1 == p0 || p1 == n || directive.get_char(p1) != '!' {
        return Err(malformed(directive));
    }
    let p2 = skip_ws(directive, p1 + 1);
    if p2 == n || directive.get_char(p2) != '(' {
        return Err(malformed(directive));
    }
    let p3 = skip_ws(directive, p2 + 1);
    if p3 == n || directive.get_char(p3) != '"' {
        return Err(malformed(directive));
    }
    let p4 = find_char_from(directive, p3 + 1, '"');
    if p4 == n || p4 == p3 + 1 {
        return Err(malformed(directive));
    }
    let path = substring_copy(directive, p3 + 1, p4);
    // After the quoted path: `)`, or `, item`, or `, [deps]`, or both.
    let q = skip_ws(directive, p4 + 1);
    if q < n && directive.get_char(q) == ')' {
        if skip_ws(directive, q + 1) == n {
            let d = Directive { file_path: path, item: None, extra_items: Vec::new() };
            proof {
                assert(d@.extra_items =~= Seq::<Seq<char>>::empty());
            }
            return Ok(d);
        }
        return Err(malformed(directive));
    }
    if !(q < n && directive.get_char(q) == ',') {
        return Err(malformed(directive));
    }
    let q2 = skip_ws(directive, q + 1);
    if q2 < n && directive.get_char(q2) == '[' {
        return parse_deps_at(directive, q2, path, None);
    }
    let e = skip_item(directive, q2);
    if e == q2 || e == n {
        return Err(malformed(directive));
    }
    let raw = substring_copy(directive, q2, e);
    let item = trim_ws(raw.as_str());
    if directive.get_char(e) == ')' {
        if skip_ws(directive, e + 1) == n {
            let d = Directive { file_path: path, item: Some(item), extra_items: Vec::new() };
            proof {
                assert(d@.extra_items =~= Seq::<Seq<char>>::empty());
            }
            return Ok(d);
        }
        return Err(malformed(directive));
    }
    if directive.get_char(e) == ',' {
        let q4 = skip_ws(directive, e + 1);
        if q4 < n && directive.get_char(q4) == '[' {
            return parse_deps_at(directive, q4, path, Some(item));
        }
        return Err(malformed(directive));
    }
    Err(malformed(directive))
}

/// Parses the dependency list at `p` (which holds `[`) and the directive's
/// closing parenthesis.
fn parse_deps_at(directive: &str, p: usize, path: String, item: Option<String>) -> (r: Result<
    Directive,
    SnippetError,
>)
    requires
        p < directive@.len(),
    ensures
        match r {
            Ok(d) => {
                &&& deps_spec(
                    directive@,
                    p as int,
                    path@,
                    match item {
                        Some(ref s) => Some(s@),
                        None => None,
                    },
                ) == Some(d@)
                &&& d@.file_path == path@
            },
            Err(e) => {
                &&& deps_spec(
                    directive@,
                    p as int,
                    path@,
                    match item {
                        Some(ref s) => Some(s@),
                        None => None,
                    },
                ) is None
                &&& e@ == (ErrorModel::MalformedDirective { directive: directive@ })
            },
        },
{
    let n = directive.unicode_len();
    let b = find_char_from(directive, p + 1, ']');
    if b == n {
        return Err(malformed(directive));
    }
    let inner = substring_copy(directive, p + 1, b);
    let q = skip_ws(directive, b + 1);
    if !(q < n && directive.get_char(q) == ')') {
        return Err(malformed(directive));
    }
    if skip_ws(directive, q + 1) != n {
        return Err(malformed(directive));
    }
    let extra = parse_deps(inner.as_str());
    let d = Directive { file_path: path, item, extra_items: extra };
    Ok(d)
}

} // verus!
