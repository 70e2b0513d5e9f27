//! Character-level text utilities shared by the directive parser, the
//! renderer and the output composer.
//!
//! All functions work on `&str` / `String` values whose mathematical model is
//! the `Seq<char>` view.  Whitespace throughout this crate means the ASCII
//! whitespace characters.

use vstd::prelude::*;
use vstd::string::StrSliceExecFns;
use vstd::string::StringExecFns;

verus! {

/// The whitespace characters recognised by trimming and indentation
/// counting: space, tab, line feed, vertical tab, form feed, carriage
/// return.
pub open spec fn is_space(c: char) -> bool {
    c == ' ' || c == '\t' || c == '\n' || c == '\u{b}' || c == '\u{c}' || c == '\r'
}

/// Executable test for [`is_space`].
pub fn is_space_char(c: char) -> (r: bool)
    ensures
        r == is_space(c),
{
    c == ' ' || c == '\t' || c == '\n' || c == '\u{b}' || c == '\u{c}' || c == '\r'
}

/// Appends one character to a string.
/// Relies on `String::push` from std: it appends the given character.
#[verifier::external_body]
pub fn push_char(s: &mut String, c: char)
    ensures
        final(s)@ == old(s)@.push(c),
{
    s.push(c);
}

/// Number of characters remaining in `s` from position `i` that are all
/// equal to the corresponding characters of `pat` starting at 0.
pub open spec fn matches_at(s: Seq<char>, i: int, pat: Seq<char>) -> bool {
    &&& 0 <= i
    &&& i + pat.len() <= s.len()
    &&& s.subrange(i, i + pat.len()) == pat
}

/// Does `pat` occur in `s` at position `i`?
pub fn starts_with_at(s: &str, i: usize, pat: &str) -> (r: bool)
    requires
        i <= s@.len(),
    ensures
        r == matches_at(s@, i as int, pat@),
{
    let n = s.unicode_len();
    let m = pat.unicode_len();
    if m > n - i {
        assert(!matches_at(s@, i as int, pat@));
        return false;
    }
    let mut j: usize = 0;
    while j < m
        invariant
            i + m <= n,
            n == s@.len(),
            m == pat@.len(),
            j <= m,
            forall|k: int| 0 <= k < j ==> s@[i + k] == pat@[k],
        decreases m - j,
    {
        if s.get_char(i + j) != pat.get_char(j) {
            assert(s@.subrange(i as int, i + m) != pat@) by {
                assert(s@.subrange(i as int, i + m)[j as int] == s@[i + j]);
            }
            return false;
        }
        j += 1;
    }
    assert(s@.subrange(i as int, i + m) =~= pat@);
    true
}

/// Character-wise string equality, specified over the views.
pub fn str_eq(a: &str, b: &str) -> (r: bool)
    ensures
        r == (a@ == b@),
{
    let n = a.unicode_len();
    if n != b.unicode_len() {
        return false;
    }
    let mut j: usize = 0;
    while j < n
        invariant
            n == a@.len() == b@.len(),
            j <= n,
            forall|k: int| 0 <= k < j ==> a@[k] == b@[k],
        decreases n - j,
    {
        if a.get_char(j) != b.get_char(j) {
            return false;
        }
        j += 1;
    }
    assert(a@ =~= b@);
    true
}

/// Copies the character range `[from, to)` of `s` into an owned string.
pub fn substring_copy(s: &str, from: usize, to: usize) -> (r: String)
    requires
        from <= to <= s@.len(),
    ensures
        r@ == s@.subrange(from as int, to as int),
{
    let sub = s.substring_char(from, to);
    sub.to_owned()
}

/// The number of leading whitespace characters of `s` (its indentation).
pub open spec fn indent_of(s: Seq<char>) -> int
    decreases s.len(),
{
    if s.len() == 0 {
        0
    } else if !is_space(s[0]) {
        0
    } else {
        1 + indent_of(s.skip(1))
    }
}

/// `indent_of` is the position of the first non-whitespace character
/// (or the length when there is none).
pub proof fn lemma_indent_of(s: Seq<char>)
    ensures
        0 <= indent_of(s) <= s.len(),
        forall|j: int| 0 <= j < indent_of(s) ==> is_space(s[j]),
        indent_of(s) < s.len() ==> !is_space(s[indent_of(s)]),
    decreases s.len(),
{
    if s.len() > 0 && is_space(s[0]) {
        lemma_indent_of(s.skip(1));
        assert forall|j: int| 0 <= j < indent_of(s) implies is_space(s[j]) by {
            if j > 0 {
                assert(s[j] == s.skip(1)[j - 1]);
            }
        }
        if indent_of(s) < s.len() {
            assert(s[indent_of(s)] == s.skip(1)[indent_of(s) - 1]);
        }
    }
}

/// Any position that has only whitespace before it and a non-whitespace
/// character (or the end) at it equals `indent_of`.
pub proof fn lemma_indent_of_unique(s: Seq<char>, k: int)
    requires
        0 <= k <= s.len(),
        forall|j: int| 0 <= j < k ==> is_space(s[j]),
        k < s.len() ==> !is_space(s[k]),
    ensures
        indent_of(s) == k,
    decreases s.len(),
{
    if s.len() == 0 {
    } else if k == 0 {
        lemma_indent_of(s);
    } else {
        assert(is_space(s[0]));
        lemma_indent_of_unique(s.skip(1), k - 1);
    }
}

/// Is `s` made of whitespace only (so it trims to the empty string)?
pub open spec fn all_space(s: Seq<char>) -> bool {
    indent_of(s) == s.len()
}

/// Counts the leading whitespace characters of `s`.
pub fn leading_ws(s: &str) -> (r: usize)
    ensures
        r == indent_of(s@),
        r <= s@.len(),
{
    let n = s.unicode_len();
    let mut i: usize = 0;
    while i < n && is_space_char(s.get_char(i))
        invariant
            n == s@.len(),
            i <= n,
            forall|j: int| 0 <= j < i ==> is_space(s@[j]),
        decreases n - i,
    {
        i += 1;
    }
    proof {
        lemma_indent_of_unique(s@, i as int);
    }
    i
}

/// The length that remains when trailing whitespace is removed.
pub open spec fn trimmed_end_len(s: Seq<char>) -> int
    decreases s.len(),
{
    if s.len() == 0 {
        0
    } else if !is_space(s.last()) {
        s.len() as int
    } else {
        trimmed_end_len(s.drop_last())
    }
}

/// `trimmed_end_len` is the position after the last non-whitespace
/// character (or zero when there is none).
pub proof fn lemma_trimmed_end_len(s: Seq<char>)
    ensures
        0 <= trimmed_end_len(s) <= s.len(),
        forall|j: int| trimmed_end_len(s) <= j < s.len() ==> is_space(s[j]),
        trimmed_end_len(s) > 0 ==> !is_space(s[trimmed_end_len(s) - 1]),
    decreases s.len(),
{
    if s.len() > 0 && is_space(s.last()) {
        lemma_trimmed_end_len(s.drop_last());
        assert forall|j: int| trimmed_end_len(s) <= j < s.len() implies is_space(s[j]) by {
            if j < s.len() - 1 {
                assert(s[j] == s.drop_last()[j]);
            }
        }
    }
}

/// Any position with only whitespace after it and a non-whitespace
/// character (or the start) before it equals `trimmed_end_len`.
pub proof fn lemma_trimmed_end_len_unique(s: Seq<char>, k: int)
    requires
        0 <= k <= s.len(),
        forall|j: int| k <= j < s.len() ==> is_space(s[j]),
        k > 0 ==> !is_space(s[k - 1]),
    ensures
        trimmed_end_len(s) == k,
    decreases s.len(),
{
    if s.len() == 0 {
    } else if k == s.len() {
        lemma_trimmed_end_len(s);
    } else {
        assert(is_space(s.last()));
        lemma_trimmed_end_len_unique(s.drop_last(), k);
    }
}

/// `s` with leading and trailing whitespace removed.
pub open spec fn trim_spec(s: Seq<char>) -> Seq<char> {
    let a = indent_of(s);
    if a == s.len() {
        Seq::empty()
    } else {
        s.subrange(a, trimmed_end_len(s))
    }
}

/// Removes leading and trailing whitespace.
pub fn trim_ws(s: &str) -> (r: String)
    ensures
        r@ == trim_spec(s@),
{
    let n = s.unicode_len();
    let a = leading_ws(s);
    if a == n {
        proof {
            lemma_indent_of(s@);
        }
        return String::new();
    }
    let mut b: usize = n;
    while b > a && is_space_char(s.get_char(b - 1))
        invariant
            n == s@.len(),
            a <= b <= n,
            forall|j: int| b <= j < n ==> is_space(s@[j]),
        decreases b,
    {
        b -= 1;
    }
    proof {
        lemma_indent_of(s@);
        // the character at `a` is not whitespace, so trimming from the end
        // stops at or after it
        assert(!is_space(s@[a as int]));
        assert(b > a);
        lemma_trimmed_end_len_unique(s@, b as int);
    }
    substring_copy(s, a, b)
}

/// The position of the first occurrence of `c` in `s` at or after `from`
/// (or the length of `s` when there is none).
pub open spec fn next_pos(s: Seq<char>, from: int, c: char) -> int
    decreases s.len() - from,
{
    if from < 0 {
        -1
    } else if from >= s.len() {
        s.len() as int
    } else if s[from] == c {
        from
    } else {
        next_pos(s, from + 1, c)
    }
}

/// Characterization of `next_pos`.
pub proof fn lemma_next_pos(s: Seq<char>, from: int, c: char)
    requires
        0 <= from <= s.len(),
    ensures
        from <= next_pos(s, from, c) <= s.len(),
        forall|j: int| from <= j < next_pos(s, from, c) ==> s[j] != c,
        next_pos(s, from, c) < s.len() ==> s[next_pos(s, from, c)] == c,
    decreases s.len() - from,
{
    if from < s.len() && s[from] != c {
        lemma_next_pos(s, from + 1, c);
    }
}

/// Finds the first occurrence of `c` at or after `from`; returns the length
/// of `s` when there is none.
pub fn find_char_from(s: &str, from: usize, c: char) -> (r: usize)
    requires
        from <= s@.len(),
    ensures
        r == next_pos(s@, from as int, c),
        from <= r <= s@.len(),
        r < s@.len() ==> s@[r as int] == c,
        forall|j: int| from <= j < r ==> s@[j] != c,
{
    let n = s.unicode_len();
    let mut i: usize = from;
    while i < n && s.get_char(i) != c
        invariant
            n == s@.len(),
            from <= i <= n,
            forall|j: int| from <= j < i ==> s@[j] != c,
        decreases n - i,
    {
        i += 1;
    }
    proof {
        lemma_next_pos_unique(s@, from as int, c, i as int);
    }
    i
}

/// Any position after `from` with no occurrence before it, holding `c` or
/// the end, equals `next_pos`.
pub proof fn lemma_next_pos_unique(s: Seq<char>, from: int, c: char, k: int)
    requires
        0 <= from <= k <= s.len(),
        forall|j: int| from <= j < k ==> s[j] != c,
        k < s.len() ==> s[k] == c,
    ensures
        next_pos(s, from, c) == k,
    decreases s.len() - from,
{
    if from < s.len() && s[from] != c {
        lemma_next_pos_unique(s, from + 1, c, k);
    }
}

/// The position of the first occurrence of `pat` in `s` at or after `from`
/// (or the length of `s` when there is none).
pub open spec fn next_match(s: Seq<char>, from: int, pat: Seq<char>) -> int
    decreases s.len() - from,
{
    if from < 0 {
        -1
    } else if from >= s.len() {
        s.len() as int
    } else if matches_at(s, from, pat) {
        from
    } else {
        next_match(s, from + 1, pat)
    }
}

/// Characterization of `next_match`.
pub proof fn lemma_next_match(s: Seq<char>, from: int, pat: Seq<char>)
    requires
        0 <= from <= s.len(),
    ensures
        from <= next_match(s, from, pat) <= s.len(),
        forall|j: int| from <= j < next_match(s, from, pat) ==> !matches_at(s, j, pat),
        next_match(s, from, pat) < s.len() ==> matches_at(s, next_match(s, from, pat), pat),
    decreases s.len() - from,
{
    if from < s.len() && !matches_at(s, from, pat) {
        lemma_next_match(s, from + 1, pat);
    }
}

/// Any position after `from` with no match before it, carrying a match or
/// being the end, equals `next_match`.
pub proof fn lemma_next_match_unique(s: Seq<char>, from: int, pat: Seq<char>, k: int)
    requires
        0 <= from <= k <= s.len(),
        forall|j: int| from <= j < k ==> !matches_at(s, j, pat),
        k < s.len() ==> matches_at(s, k, pat),
    ensures
        next_match(s, from, pat) == k,
    decreases s.len() - from,
{
    if from < s.len() && !matches_at(s, from, pat) {
        lemma_next_match_unique(s, from + 1, pat, k);
    }
}

/// Finds the first occurrence of `pat` at or after `from`; returns the
/// length of `s` when there is none.
pub fn find_sub_from(s: &str, from: usize, pat: &str) -> (r: usize)
    requires
        from <= s@.len(),
    ensures
        r == next_match(s@, from as int, pat@),
        from <= r <= s@.len(),
        r < s@.len() ==> matches_at(s@, r as int, pat@),
        forall|j: int| from <= j < r ==> !matches_at(s@, j, pat@),
{
    let n = s.unicode_len();
    let mut i: usize = from;
    while i < n && !starts_with_at(s, i, pat)
        invariant
            n == s@.len(),
            from <= i <= n,
            forall|j: int| from <= j < i ==> !matches_at(s@, j, pat@),
        decreases n - i,
    {
        i += 1;
    }
    proof {
        lemma_next_match_unique(s@, from as int, pat@, i as int);
    }
    i
}

/// The position of the last occurrence of `pat` in `s` strictly before
/// `upto`, or `-1` when there is none.
pub open spec fn last_match_before(s: Seq<char>, pat: Seq<char>, upto: int) -> int
    decreases upto,
{
    if upto <= 0 {
        -1
    } else if matches_at(s, upto - 1, pat) {
        upto - 1
    } else {
        last_match_before(s, pat, upto - 1)
    }
}

/// Characterization of `last_match_before`.
pub proof fn lemma_last_match_before(s: Seq<char>, pat: Seq<char>, upto: int)
    requires
        upto >= 0,
    ensures
        -1 <= last_match_before(s, pat, upto) < upto || last_match_before(s, pat, upto) == -1,
        forall|j: int| last_match_before(s, pat, upto) < j < upto ==> !matches_at(s, j, pat),
        last_match_before(s, pat, upto) >= 0 ==> matches_at(s, last_match_before(s, pat, upto), pat),
    decreases upto,
{
    if upto > 0 && !matches_at(s, upto - 1, pat) {
        lemma_last_match_before(s, pat, upto - 1);
    }
}

/// Finds the last occurrence of `pat` strictly before `upto`.
pub fn rfind_sub(s: &str, upto: usize, pat: &str) -> (r: Option<usize>)
    requires
        upto <= s@.len(),
    ensures
        match r {
            Some(i) => i == last_match_before(s@, pat@, upto as int),
            None => last_match_before(s@, pat@, upto as int) == -1,
        },
{
    let mut i: usize = upto;
    while i > 0
        invariant
            upto <= s@.len(),
            i <= upto,
            forall|j: int| i <= j < upto ==> !matches_at(s@, j, pat@),
        decreases i,
    {
        if starts_with_at(s, i - 1, pat) {
            proof {
                lemma_last_match_unique(s@, pat@, upto as int, i - 1);
            }
            return Some(i - 1);
        }
        i -= 1;
    }
    proof {
        lemma_last_match_unique(s@, pat@, upto as int, -1);
    }
    None
}

/// Any position with a match (or `-1`) and no match after it equals
/// `last_match_before`.
pub proof fn lemma_last_match_unique(s: Seq<char>, pat: Seq<char>, upto: int, k: int)
    requires
        -1 <= k < upto,
        forall|j: int| k < j < upto ==> !matches_at(s, j, pat),
        k >= 0 ==> matches_at(s, k, pat),
    ensures
        last_match_before(s, pat, upto) == k,
    decreases upto,
{
    if upto > 0 && !matches_at(s, upto - 1, pat) {
        lemma_last_match_unique(s, pat, upto - 1, k);
    }
}

/// The decimal digit character for a value below ten.
pub open spec fn dec_digit(d: nat) -> char {
    if d == 0 {
        '0'
    } else if d == 1 {
        '1'
    } else if d == 2 {
        '2'
    } else if d == 3 {
        '3'
    } else if d == 4 {
        '4'
    } else if d == 5 {
        '5'
    } else if d == 6 {
        '6'
    } else if d == 7 {
        '7'
    } else if d == 8 {
        '8'
    } else {
        '9'
    }
}

/// The decimal digits of `n`, most significant first.
pub open spec fn dec_digits(n: nat) -> Seq<char>
    decreases n,
{
    if n < 10 {
        seq![dec_digit(n)]
    } else {
        dec_digits(n / 10).push(dec_digit(n % 10))
    }
}

/// Executable counterpart of [`dec_digit`].
fn dec_digit_char(d: usize) -> (r: char)
    requires
        d < 10,
    ensures
        r == dec_digit(d as nat),
{
    if d == 0 {
        '0'
    } else if d == 1 {
        '1'
    } else if d == 2 {
        '2'
    } else if d == 3 {
        '3'
    } else if d == 4 {
        '4'
    } else if d == 5 {
        '5'
    } else if d == 6 {
        '6'
    } else if d == 7 {
        '7'
    } else if d == 8 {
        '8'
    } else {
        '9'
    }
}

/// Renders `n` in decimal.
pub fn usize_to_string(n: usize) -> (r: String)
    ensures
        r@ == dec_digits(n as nat),
    decreases n,
{
    if n < 10 {
        let mut s = String::new();
        push_char(&mut s, dec_digit_char(n));
        proof {
            assert(s@ =~= dec_digits(n as nat));
        }
        s
    } else {
        let mut s = usize_to_string(n / 10);
        push_char(&mut s, dec_digit_char(n % 10));
        s
    }
}

/// The views of a sequence of strings.
pub open spec fn views_of(v: Seq<String>) -> Seq<Seq<char>> {
    v.map_values(|s: String| s@)
}

/// `s` split at every occurrence of `sep`; `n` occurrences yield `n + 1`
/// parts.
pub open spec fn split_sep(s: Seq<char>, sep: char) -> Seq<Seq<char>>
    decreases s.len(),
{
    let i = next_pos(s, 0, sep);
    if 0 <= i < s.len() {
        seq![s.subrange(0, i)] + split_sep(s.subrange(i + 1, s.len() as int), sep)
    } else {
        seq![s]
    }
}

/// `s` split at every line feed; `n` line feeds yield `n + 1` parts.
pub open spec fn split_nl(s: Seq<char>) -> Seq<Seq<char>> {
    split_sep(s, '\n')
}

/// The lines of `s`: split at every line feed, except that a final line
/// feed ends the last line rather than opening an empty one.
pub open spec fn lines_spec(s: Seq<char>) -> Seq<Seq<char>> {
    if s.len() == 0 {
        Seq::empty()
    } else if s.last() == '\n' {
        split_nl(s.drop_last())
    } else {
        split_nl(s)
    }
}

/// Splits `s` at every occurrence of `sep`, keeping empty parts.
pub fn split_char(s: &str, sep: char) -> (r: Vec<String>)
    ensures
        views_of(r@) == split_sep(s@, sep),
{
    let n = s.unicode_len();
    let mut parts: Vec<String> = Vec::new();
    let mut pos: usize = 0;
    proof {
        assert(s@.subrange(0, n as int) =~= s@);
        assert(views_of(parts@) =~= Seq::<Seq<char>>::empty());
    }
    loop
        invariant
            n == s@.len(),
            pos <= n,
            pos > 0 ==> s@[pos - 1] == sep,
            split_sep(s@, sep) =~= views_of(parts@) + split_sep(
                s@.subrange(pos as int, n as int),
                sep,
            ),
        decreases n - pos,
    {
        let j = find_char_from(s, pos, sep);
        let part = substring_copy(s, pos, j);
        proof {
            let rest = s@.subrange(pos as int, n as int);
            lemma_next_pos_shift(s@, pos as int, j as int, sep);
            assert(rest.subrange(0, j - pos) =~= s@.subrange(pos as int, j as int));
            if j < n {
                assert(rest.subrange(j - pos + 1, rest.len() as int) =~= s@.subrange(
                    j + 1,
                    n as int,
                ));
                assert(split_sep(rest, sep) =~= seq![part@] + split_sep(
                    s@.subrange(j + 1, n as int),
                    sep,
                ));
            } else {
                assert(split_sep(rest, sep) =~= seq![part@]);
            }
            assert(views_of(parts@.push(part)) =~= views_of(parts@).push(part@));
        }
        parts.push(part);
        if j == n {
            return parts;
        }
        pos = j + 1;
    }
}

/// `next_pos` of a suffix, expressed through positions of the whole string.
proof fn lemma_next_pos_shift(s: Seq<char>, pos: int, j: int, c: char)
    requires
        0 <= pos <= j <= s.len(),
        j == next_pos(s, pos, c),
    ensures
        next_pos(s.subrange(pos, s.len() as int), 0, c) == j - pos,
{
    lemma_next_pos(s, pos, c);
    let rest = s.subrange(pos, s.len() as int);
    assert forall|k: int| 0 <= k < j - pos implies rest[k] != c by {
        assert(rest[k] == s[pos + k]);
    }
    lemma_next_pos_unique(rest, 0, c, j - pos);
}

/// The lines of `s`, as [`lines_spec`] describes them.
pub fn lines_of(s: &str) -> (r: Vec<String>)
    ensures
        views_of(r@) == lines_spec(s@),
{
    let n = s.unicode_len();
    if n == 0 {
        let r: Vec<String> = Vec::new();
        assert(views_of(r@) =~= lines_spec(s@));
        return r;
    }
    if s.get_char(n - 1) == '\n' {
        let head = s.substring_char(0, n - 1);
        assert(head@ =~= s@.drop_last());
        split_char(head, '\n')
    } else {
        split_char(s, '\n')
    }
}

/// The lines joined with a line feed between each pair.
pub open spec fn join_nl(lines: Seq<Seq<char>>) -> Seq<char>
    decreases lines.len(),
{
    if lines.len() == 0 {
        Seq::empty()
    } else if lines.len() == 1 {
        lines[0]
    } else {
        join_nl(lines.drop_last()) + seq!['\n'] + lines.last()
    }
}

/// Joins the given lines with a line feed between each pair.
pub fn join_with_newlines(lines: &Vec<String>) -> (r: String)
    ensures
        r@ == join_nl(views_of(lines@)),
{
    let mut out = String::new();
    let mut i: usize = 0;
    while i < lines.len()
        invariant
            i <= lines@.len(),
            out@ =~= join_nl(views_of(lines@.take(i as int))),
        decreases lines@.len() - i,
    {
        if i > 0 {
            out.append("\n");
        }
        out.append(lines[i].as_str());
        proof {
            reveal_strlit("\n");
            assert("\n"@ =~= seq!['\n']);
            let vs = views_of(lines@.take(i + 1));
            assert(vs.drop_last() =~= views_of(lines@.take(i as int)));
            assert(vs.last() == lines@[i as int]@);
            assert(out@ =~= join_nl(vs));
        }
        i += 1;
    }
    proof {
        assert(lines@.take(lines@.len() as int) =~= lines@);
    }
    out
}

} // verus!
