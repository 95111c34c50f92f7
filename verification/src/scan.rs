//! The line scanner primitives: quote and escape tracking within one line,
//! block-comment and bracket-block detection across lines, and keyword
//! boundary tests.  All scanners are pure functions of the text they are
//! given and answer `false` for positions outside the line.

use vstd::prelude::*;
use crate::text::{
    lower, to_lower, contains_seq, contains_str, contains_char, first_token, first_token_exec,
    ws_tokens, ws_tokens_exec,
};
use crate::keywords::{is_statement_kw, is_statement_kw_exec, token_is_type_like,
    token_is_type_like_exec, line_has_cql_type};

verus! {

/// The pattern occurs in the line once it is lower-cased.
pub open spec fn containsi(s: Seq<char>, pat: Seq<char>) -> bool {
    contains_seq(lower(s), pat)
}

pub fn containsi_exec(v: &Vec<char>, pat: &str) -> (r: bool)
    ensures
        r == containsi(v@, pat@),
{
    let lw = to_lower(v);
    contains_str(&lw, pat)
}

/// The line's first whitespace-delimited token, lower-cased, begins a CQL
/// statement.
pub open spec fn line_starts_with_kw(s: Seq<char>) -> bool {
    is_statement_kw(first_token(lower(s)))
}

/// Whether the line opens a new CQL statement: its first token, lower-cased,
/// is a statement keyword.
pub fn line_contains_cql_kw(line: &Vec<char>) -> (r: bool)
    ensures
        r == line_starts_with_kw(line@),
{
    let lw = to_lower(line);
    let t = first_token_exec(&lw);
    is_statement_kw_exec(&t)
}

/// Whether some token of the line names a CQL column type.
pub fn line_contains_cql_type(line: &Vec<char>) -> (r: bool)
    ensures
        r == line_has_cql_type(line@),
{
    let tokens = ws_tokens_exec(line);
    let mut i: usize = 0;
    while i < tokens.len()
        invariant
            i <= tokens@.len(),
            tokens.deep_view() == ws_tokens(line@),
            forall|k: int| 0 <= k < i ==> !token_is_type_like(ws_tokens(line@)[k]),
        decreases tokens.len() - i,
    {
        assert(tokens.deep_view()[i as int] == tokens@[i as int]@);
        if token_is_type_like_exec(&tokens[i]) {
            return true;
        }
        i = i + 1;
    }
    false
}

/// The quote-scanner state after reading the first `i` characters of the
/// line: inside double quotes, inside single quotes, and the next character
/// is escaped.
pub open spec fn quote_state(s: Seq<char>, i: int) -> (bool, bool, bool)
    decreases i,
{
    if i <= 0 {
        (false, false, false)
    } else {
        let st = quote_state(s, i - 1);
        let c = s[i - 1];
        if st.2 {
            (st.0, st.1, false)
        } else if c == '\\' {
            (st.0, st.1, true)
        } else if c == '"' && !st.1 {
            (!st.0, st.1, false)
        } else if c == '\'' && !st.0 {
            (st.0, !st.1, false)
        } else {
            st
        }
    }
}

/// The position sits inside a single- or double-quoted span of its line.
/// Positions beyond the line's end are never inside a literal.
pub open spec fn in_string_literal(s: Seq<char>, pos: int) -> bool {
    if 0 <= pos <= s.len() {
        let st = quote_state(s, pos);
        st.0 || st.1
    } else {
        false
    }
}

/// Walks the characters left of `position`, toggling the two quote flags and
/// consuming one escaped character at a time.
pub fn is_in_string_literal(line: &Vec<char>, position: usize) -> (r: bool)
    ensures
        r == in_string_literal(line@, position as int),
{
    if position > line.len() {
        return false;
    }
    let mut dq = false;
    let mut sq = false;
    let mut esc = false;
    let mut i: usize = 0;
    while i < position
        invariant
            i <= position <= line@.len(),
            (dq, sq, esc) == quote_state(line@, i as int),
        decreases position - i,
    {
        let c = line[i];
        if esc {
            esc = false;
        } else if c == '\\' {
            esc = true;
        } else if c == '"' && !sq {
            dq = !dq;
        } else if c == '\'' && !dq {
            sq = !sq;
        }
        i = i + 1;
    }
    dq || sq
}

proof fn lemma_quote_state_agree(a: Seq<char>, b: Seq<char>, i: int)
    requires
        forall|k: int| 0 <= k < i ==> a[k] == b[k],
    ensures
        quote_state(a, i) == quote_state(b, i),
    decreases i,
{
    if i > 0 {
        lemma_quote_state_agree(a, b, i - 1);
    }
}

proof fn lemma_quote_state_shift(s: Seq<char>, t: Seq<char>, j: int, i: int)
    requires
        0 <= j <= i,
        quote_state(t, j + 2) == quote_state(s, j),
        forall|k: int| j <= k < i ==> t[k + 2] == s[k],
    ensures
        quote_state(t, i + 2) == quote_state(s, i),
    decreases i - j,
{
    if i > j {
        lemma_quote_state_shift(s, t, j, i - 1);
    }
}

/// Law: the string-literal classification of a position is invariant under
/// inserting a fully-escaped character pair (a backslash and any character)
/// anywhere earlier in the line, provided the insertion point does not
/// split an existing escape pair: escape consumption never leaks past its
/// pair.
pub proof fn lemma_escape_insertion_invariant(s: Seq<char>, j: int, c: char, pos: int)
    requires
        0 <= j <= pos <= s.len(),
        !quote_state(s, j).2,
    ensures
        in_string_literal(s.take(j) + seq!['\\', c] + s.skip(j), pos + 2) == in_string_literal(
            s,
            pos,
        ),
{
    let t = s.take(j) + seq!['\\', c] + s.skip(j);
    assert(t.len() == s.len() + 2);
    assert(forall|k: int| 0 <= k < j ==> t[k] == s[k]);
    assert(t[j] == '\\');
    assert(t[j + 1] == c);
    assert(forall|k: int| j <= k < s.len() ==> t[k + 2] == s[k]);
    lemma_quote_state_agree(t, s, j);
    let st = quote_state(s, j);
    assert(quote_state(t, j + 1) == (st.0, st.1, true));
    assert(quote_state(t, j + 2) == (st.0, st.1, false));
    assert(quote_state(t, j + 2) == st);
    lemma_quote_state_shift(s, t, j, pos);
}

/// The line holds a block-comment marker of either kind.
pub open spec fn ml_comment_clause(s: Seq<char>) -> bool {
    contains_seq(s, "/*"@) || contains_seq(s, "*/"@)
}

pub fn is_multi_line_comment_clause(line: &Vec<char>) -> (r: bool)
    ensures
        r == ml_comment_clause(line@),
{
    contains_str(line, "/*") || contains_str(line, "*/")
}

/// Scanning upward from line `i`, the first line holding a comment marker
/// holds an opener.
pub open spec fn comment_open_above(lines: Seq<Seq<char>>, i: int) -> bool
    decreases (if i < 0 { 0int } else { i + 1 }),
{
    if i < 0 || i >= lines.len() {
        false
    } else if contains_seq(lines[i], "/*"@) {
        true
    } else if contains_seq(lines[i], "*/"@) {
        false
    } else {
        comment_open_above(lines, i - 1)
    }
}

/// Scanning downward from line `i`, the first line holding a comment marker
/// holds a closer.
pub open spec fn comment_close_below(lines: Seq<Seq<char>>, i: int) -> bool
    decreases (if i > lines.len() { 0int } else { lines.len() - i }),
{
    if i < 0 || i >= lines.len() {
        false
    } else if contains_seq(lines[i], "*/"@) {
        true
    } else if contains_seq(lines[i], "/*"@) {
        false
    } else {
        comment_close_below(lines, i + 1)
    }
}

/// The line sits strictly inside a multi-line comment: it holds no marker
/// itself, an opener stands above it, a closer below it, and it is neither
/// the first nor the last line.
pub open spec fn in_ml_comment(line: Seq<char>, index: int, lines: Seq<Seq<char>>) -> bool {
    &&& index != 0
    &&& index != lines.len() - 1
    &&& !contains_seq(line, "/*"@)
    &&& !contains_seq(line, "*/"@)
    &&& comment_open_above(lines, index - 1)
    &&& comment_close_below(lines, index + 1)
}

fn comment_open_above_exec(lines: &Vec<Vec<char>>, i: usize) -> (r: bool)
    requires
        i < lines@.len(),
    ensures
        r == comment_open_above(lines.deep_view(), i as int),
{
    let mut j: usize = i;
    loop
        invariant
            j <= i < lines@.len(),
            comment_open_above(lines.deep_view(), i as int) == comment_open_above(
                lines.deep_view(),
                j as int,
            ),
        decreases j,
    {
        assert(lines.deep_view()[j as int] == lines@[j as int]@);
        if contains_str(&lines[j], "/*") {
            assert(comment_open_above(lines.deep_view(), j as int));
            return true;
        }
        if contains_str(&lines[j], "*/") {
            assert(!comment_open_above(lines.deep_view(), j as int));
            return false;
        }
        if j == 0 {
            assert(!comment_open_above(lines.deep_view(), -1));
            return false;
        }
        j = j - 1;
    }
}

fn comment_close_below_exec(lines: &Vec<Vec<char>>, i: usize) -> (r: bool)
    requires
        i <= lines@.len(),
    ensures
        r == comment_close_below(lines.deep_view(), i as int),
{
    let mut j: usize = i;
    while j < lines.len()
        invariant
            i <= j <= lines@.len(),
            comment_close_below(lines.deep_view(), i as int) == comment_close_below(
                lines.deep_view(),
                j as int,
            ),
        decreases lines.len() - j,
    {
        assert(lines.deep_view()[j as int] == lines@[j as int]@);
        if contains_str(&lines[j], "*/") {
            return true;
        }
        if contains_str(&lines[j], "/*") {
            return false;
        }
        j = j + 1;
    }
    false
}

/// Whether the line at `index` sits strictly inside a `/* ... */` comment.
pub fn is_line_in_multiline_comment(line: &Vec<char>, index: usize, lines: &Vec<Vec<char>>) -> (r:
    bool)
    requires
        lines@.len() > 0,
        index < lines@.len(),
    ensures
        r == in_ml_comment(line@, index as int, lines.deep_view()),
{
    if index == 0 || index == lines.len() - 1 || contains_str(line, "/*") || contains_str(
        line,
        "*/",
    ) {
        return false;
    }
    if !comment_open_above_exec(lines, index - 1) {
        return false;
    }
    comment_close_below_exec(lines, index + 1)
}

/// Scanning upward from line `i`: some line at or above holds `select`.
pub open spec fn select_above(lines: Seq<Seq<char>>, i: int) -> bool
    decreases (if i < 0 { 0int } else { i + 1 }),
{
    if i < 0 || i >= lines.len() {
        false
    } else if containsi(lines[i], "select"@) {
        true
    } else {
        select_above(lines, i - 1)
    }
}

/// Scanning downward from line `i`, a line holding `from` comes before any
/// line holding a terminator.
pub open spec fn from_below(lines: Seq<Seq<char>>, i: int) -> bool
    decreases (if i > lines.len() { 0int } else { lines.len() - i }),
{
    if i < 0 || i >= lines.len() {
        false
    } else if containsi(lines[i], "from"@) {
        true
    } else if lines[i].contains(';') {
        false
    } else {
        from_below(lines, i + 1)
    }
}

/// The line sits inside the selector list of a surrounding SELECT statement:
/// `select` stands above it, `from` below it before any terminator, and the
/// line itself neither opens a statement nor holds a terminator.
pub open spec fn inside_selectors(line: Seq<char>, index: int, lines: Seq<Seq<char>>) -> bool {
    &&& !line_starts_with_kw(line)
    &&& !line.contains(';')
    &&& line.len() != 0
    &&& index != 0
    &&& index != lines.len() - 1
    &&& !containsi(line, "values"@)
    &&& !containsi(line, "from"@)
    &&& select_above(lines, index - 1)
    &&& from_below(lines, index + 1)
}

fn select_above_exec(lines: &Vec<Vec<char>>, i: usize) -> (r: bool)
    requires
        i < lines@.len(),
    ensures
        r == select_above(lines.deep_view(), i as int),
{
    let mut j: usize = i;
    loop
        invariant
            j <= i < lines@.len(),
            select_above(lines.deep_view(), i as int) == select_above(lines.deep_view(), j as int),
        decreases j,
    {
        assert(lines.deep_view()[j as int] == lines@[j as int]@);
        if containsi_exec(&lines[j], "select") {
            assert(select_above(lines.deep_view(), j as int));
            return true;
        }
        if j == 0 {
            assert(!select_above(lines.deep_view(), -1));
            return false;
        }
        j = j - 1;
    }
}

fn from_below_exec(lines: &Vec<Vec<char>>, i: usize) -> (r: bool)
    requires
        i <= lines@.len(),
    ensures
        r == from_below(lines.deep_view(), i as int),
{
    let mut j: usize = i;
    while j < lines.len()
        invariant
            i <= j <= lines@.len(),
            from_below(lines.deep_view(), i as int) == from_below(lines.deep_view(), j as int),
        decreases lines.len() - j,
    {
        assert(lines.deep_view()[j as int] == lines@[j as int]@);
        if containsi_exec(&lines[j], "from") {
            return true;
        }
        if contains_char(&lines[j], ';') {
            return false;
        }
        j = j + 1;
    }
    false
}

/// Whether the line at `index` sits inside a SELECT statement's selector
/// list.
pub fn is_line_inside_selectors(line: &Vec<char>, index: usize, lines: &Vec<Vec<char>>) -> (r:
    bool)
    requires
        lines@.len() > 0,
        index < lines@.len(),
    ensures
        r == inside_selectors(line@, index as int, lines.deep_view()),
{
    if line_contains_cql_kw(line) || contains_char(line, ';') || line.len() == 0 {
        return false;
    }
    if index == 0 || index == lines.len() - 1 {
        return false;
    }
    if containsi_exec(line, "values") || containsi_exec(line, "from") {
        return false;
    }
    if !select_above_exec(lines, index - 1) {
        return false;
    }
    from_below_exec(lines, index + 1)
}

/// Scanning upward from line `i`, the first decisive line holds an opening
/// bracket; a closing bracket or a new statement aborts the scan.
pub open spec fn opener_above(lines: Seq<Seq<char>>, i: int) -> bool
    decreases (if i < 0 { 0int } else { i + 1 }),
{
    if i < 0 || i >= lines.len() {
        false
    } else if lines[i].contains('{') || lines[i].contains('(') {
        true
    } else if lines[i].contains('}') || lines[i].contains(')') {
        false
    } else if line_starts_with_kw(lines[i]) {
        false
    } else {
        opener_above(lines, i - 1)
    }
}

/// Scanning downward from line `i`, the first decisive line holds a closing
/// bracket; an opening bracket, a terminator or a new statement aborts the
/// scan.
pub open spec fn closer_below(lines: Seq<Seq<char>>, i: int) -> bool
    decreases (if i > lines.len() { 0int } else { lines.len() - i }),
{
    if i < 0 || i >= lines.len() {
        false
    } else if lines[i].contains('}') || lines[i].contains(')') {
        true
    } else if lines[i].contains('{') || lines[i].contains('(') {
        false
    } else if lines[i].contains(';') {
        false
    } else if line_starts_with_kw(lines[i]) {
        false
    } else {
        closer_below(lines, i + 1)
    }
}

/// The line sits inside a bracketed argument block: an unmatched opener
/// stands above it, its closer below it, and the line itself holds neither
/// brackets, terminator, nor a statement keyword.
pub open spec fn inside_init_args(line: Seq<char>, index: int, lines: Seq<Seq<char>>) -> bool {
    &&& !line_starts_with_kw(line)
    &&& !line.contains(';')
    &&& !line.contains('{')
    &&& !line.contains('}')
    &&& !line.contains('(')
    &&& !line.contains(')')
    &&& index != 0
    &&& index != lines.len() - 1
    &&& !containsi(line, "values"@)
    &&& !containsi(line, "from"@)
    &&& opener_above(lines, index - 1)
    &&& closer_below(lines, index + 1)
}

fn opener_above_exec(lines: &Vec<Vec<char>>, i: usize) -> (r: bool)
    requires
        i < lines@.len(),
    ensures
        r == opener_above(lines.deep_view(), i as int),
{
    let mut j: usize = i;
    loop
        invariant
            j <= i < lines@.len(),
            opener_above(lines.deep_view(), i as int) == opener_above(lines.deep_view(), j as int),
        decreases j,
    {
        assert(lines.deep_view()[j as int] == lines@[j as int]@);
        if contains_char(&lines[j], '{') || contains_char(&lines[j], '(') {
            assert(opener_above(lines.deep_view(), j as int));
            return true;
        }
        if contains_char(&lines[j], '}') || contains_char(&lines[j], ')') {
            assert(!opener_above(lines.deep_view(), j as int));
            return false;
        }
        if line_contains_cql_kw(&lines[j]) {
            assert(!opener_above(lines.deep_view(), j as int));
            return false;
        }
        if j == 0 {
            assert(!opener_above(lines.deep_view(), -1));
            return false;
        }
        j = j - 1;
    }
}

fn closer_below_exec(lines: &Vec<Vec<char>>, i: usize) -> (r: bool)
    requires
        i <= lines@.len(),
    ensures
        r == closer_below(lines.deep_view(), i as int),
{
    let mut j: usize = i;
    while j < lines.len()
        invariant
            i <= j <= lines@.len(),
            closer_below(lines.deep_view(), i as int) == closer_below(lines.deep_view(), j as int),
        decreases lines.len() - j,
    {
        assert(lines.deep_view()[j as int] == lines@[j as int]@);
        if contains_char(&lines[j], '}') || contains_char(&lines[j], ')') {
            return true;
        }
        if contains_char(&lines[j], '{') || contains_char(&lines[j], '(') {
            return false;
        }
        if contains_char(&lines[j], ';') {
            return false;
        }
        if line_contains_cql_kw(&lines[j]) {
            return false;
        }
        j = j + 1;
    }
    false
}

/// Whether the line at `index` sits inside a bracketed argument block, such
/// as a CREATE TABLE column list or an INSERT value list.
pub fn is_line_inside_init_args(line: &Vec<char>, index: usize, lines: &Vec<Vec<char>>) -> (r:
    bool)
    requires
        lines@.len() > 0,
        index < lines@.len(),
    ensures
        r == inside_init_args(line@, index as int, lines.deep_view()),
{
    if line_contains_cql_kw(line) || contains_char(line, ';') || contains_char(line, '{')
        || contains_char(line, '}') || contains_char(line, '(') || contains_char(line, ')') {
        return false;
    }
    if index == 0 || index == lines.len() - 1 {
        return false;
    }
    if containsi_exec(line, "values") || containsi_exec(line, "from") {
        return false;
    }
    if !opener_above_exec(lines, index - 1) {
        return false;
    }
    closer_below_exec(lines, index + 1)
}

} // verus!
