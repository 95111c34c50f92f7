//! The active-scope resolver: finds the keyspace declared by the nearest
//! preceding `USE "<name>";` statement, and the table reference already
//! typed after `from` on the current line.

use vstd::prelude::*;
use crate::text::{
    lower, to_lower, trim_spec, trim, trim_end_spec, trim_end, split_sp, split_sp_exec, split_char,
    split_char_exec, contains_seq, contains_str, contains_char, remove_char, remove_char_exec,
    subvec, chars_to_string, eq_str,
};
use crate::scan::{containsi, containsi_exec};

verus! {

/// The strict shape of a USE statement: the trimmed line reads
/// `use <quote><name><quote>;` with a single space after `use`, at least one
/// character of name, and matching quotes.
pub open spec fn use_line(s: Seq<char>) -> bool {
    let c = trim_spec(s);
    &&& c.len() >= 8
    &&& (c[0] == 'u' || c[0] == 'U')
    &&& (c[1] == 's' || c[1] == 'S')
    &&& (c[2] == 'e' || c[2] == 'E')
    &&& c[3] == ' '
    &&& (c[4] == '"' || c[4] == '\'')
    &&& c[c.len() - 1] == ';'
    &&& c[c.len() - 2] == c[4]
}

/// The keyspace name a USE line declares: what stands between its quotes.
pub open spec fn use_line_keyspace(s: Seq<char>) -> Seq<char> {
    let c = trim_spec(s);
    c.subrange(5, c.len() - 2)
}

pub fn is_use_keyspace_line(line: &Vec<char>) -> (r: bool)
    ensures
        r == use_line(line@),
{
    let c = trim(line);
    if c.len() < 8 {
        return false;
    }
    let n = c.len();
    (c[0] == 'u' || c[0] == 'U') && (c[1] == 's' || c[1] == 'S') && (c[2] == 'e' || c[2] == 'E')
        && c[3] == ' ' && (c[4] == '"' || c[4] == '\'') && c[n - 1] == ';' && c[n - 2] == c[4]
}

/// The keyspace declared by the last USE line among the first `limit` lines.
pub open spec fn latest_keyspace_upto(lines: Seq<Seq<char>>, limit: int) -> Option<Seq<char>>
    decreases (if limit < 0 { 0int } else { limit }),
{
    if limit <= 0 || limit > lines.len() {
        None
    } else if use_line(lines[limit - 1]) {
        Some(use_line_keyspace(lines[limit - 1]))
    } else {
        latest_keyspace_upto(lines, limit - 1)
    }
}

/// The active keyspace at the cursor's line: the last USE declaration on an
/// earlier line; when the cursor lies beyond the document, the whole
/// document counts.
pub open spec fn latest_keyspace_spec(lines: Seq<Seq<char>>, cursor_line: int) -> Option<
    Seq<char>,
> {
    if 0 <= cursor_line < lines.len() {
        latest_keyspace_upto(lines, cursor_line)
    } else {
        latest_keyspace_upto(lines, lines.len() as int)
    }
}

/// Resolves the active keyspace by scanning the lines before the cursor for
/// the most recent USE declaration.
pub fn latest_keyspace(lines: &Vec<Vec<char>>, cursor_line: usize) -> (r: Option<String>)
    ensures
        match r {
            Some(s) => latest_keyspace_spec(lines.deep_view(), cursor_line as int) == Some(s@),
            None => latest_keyspace_spec(lines.deep_view(), cursor_line as int) is None,
        },
{
    let limit: usize = if cursor_line < lines.len() {
        cursor_line
    } else {
        lines.len()
    };
    let mut j: usize = limit;
    while j > 0
        invariant
            j <= limit <= lines@.len(),
            latest_keyspace_spec(lines.deep_view(), cursor_line as int) == latest_keyspace_upto(
                lines.deep_view(),
                j as int,
            ),
        decreases j,
    {
        assert(lines.deep_view()[j - 1] == lines@[j - 1]@);
        if is_use_keyspace_line(&lines[j - 1]) {
            assert(latest_keyspace_upto(lines.deep_view(), j as int) == Some(
                use_line_keyspace(lines.deep_view()[j - 1]),
            ));
            let c = trim(&lines[j - 1]);
            let name = subvec(&c, 5, c.len() - 2);
            return Some(chars_to_string(&name));
        }
        j = j - 1;
    }
    assert(latest_keyspace_upto(lines.deep_view(), 0) is None);
    None
}

/// An ASCII letter.
pub open spec fn is_alpha(c: char) -> bool {
    (97 <= c as u32 && c as u32 <= 122) || (65 <= c as u32 && c as u32 <= 90)
}

/// Some character of the token is a letter.
pub open spec fn has_alpha(s: Seq<char>) -> bool {
    exists|i: int| 0 <= i < s.len() && is_alpha(s[i])
}

fn has_alpha_exec(v: &Vec<char>) -> (r: bool)
    ensures
        r == has_alpha(v@),
{
    let mut i: usize = 0;
    while i < v.len()
        invariant
            i <= v.len(),
            forall|k: int| 0 <= k < i ==> !is_alpha(v@[k]),
        decreases v.len() - i,
    {
        let u = v[i] as u32;
        if (97 <= u && u <= 122) || (65 <= u && u <= 90) {
            return true;
        }
        i = i + 1;
    }
    false
}

/// Index of the first token equal to `w`, or the token count when absent.
pub open spec fn find_tok(t: Seq<Seq<char>>, w: Seq<char>) -> int
    decreases t.len(),
{
    if t.len() == 0 {
        0
    } else if t[0] == w {
        0
    } else {
        1 + find_tok(t.drop_first(), w)
    }
}

proof fn lemma_find_tok_is(t: Seq<Seq<char>>, w: Seq<char>, j: int)
    requires
        0 <= j <= t.len(),
        forall|k: int| 0 <= k < j ==> t[k] != w,
        j == t.len() || t[j] == w,
    ensures
        find_tok(t, w) == j,
    decreases j,
{
    if j > 0 {
        lemma_find_tok_is(t.drop_first(), w, j - 1);
    }
}

/// A completed selector list lets a field completion rewrite the whole
/// statement: true when no `from` is typed yet, or when nothing alphabetic
/// follows the `from` keyword.
pub open spec fn field_should_edit(line: Seq<char>) -> bool {
    let t = split_sp(lower(line));
    let i = find_tok(t, "from"@);
    if i >= t.len() {
        true
    } else if i == t.len() - 1 {
        true
    } else {
        !has_alpha(t[i + 1])
    }
}

pub fn should_field_be_edit(line: &Vec<char>) -> (r: bool)
    ensures
        r == field_should_edit(line@),
{
    let lw = to_lower(line);
    let t = split_sp_exec(&lw);
    let ghost tv = t.deep_view();
    let mut i: usize = 0;
    while i < t.len() && !eq_str(&t[i], "from")
        invariant
            i <= t@.len(),
            tv == t.deep_view(),
            forall|k: int| 0 <= k < i ==> tv[k] != "from"@,
            forall|k: int| 0 <= k < t@.len() ==> t.deep_view()[k] == t@[k]@,
        decreases t.len() - i,
    {
        i = i + 1;
    }
    proof {
        lemma_find_tok_is(tv, "from"@, i as int);
    }
    if i >= t.len() || i == t.len() - 1 {
        return true;
    }
    !has_alpha_exec(&t[i + 1])
}

/// The table reference already typed after `from` on the line: either a
/// `keyspace.table` pair, a bare table name, or nothing usable.
pub enum FromTarget {
    Qualified(String, String),
    Bare(String),
    NoTarget,
}

/// The last token of the lower-cased, end-trimmed line.
pub open spec fn last_token(line: Seq<char>) -> Seq<char> {
    let t = split_sp(trim_end_spec(lower(line)));
    t[t.len() - 1]
}

/// The last token is a usable table reference: the line mentions `from`,
/// the token is not `from` itself, and it is more than one character long.
pub open spec fn from_token_usable(line: Seq<char>) -> bool {
    &&& containsi(line, "from"@)
    &&& !contains_seq(last_token(line), "from"@)
    &&& last_token(line).len() > 1
}

/// The last token with terminators removed.
pub open spec fn from_token_cleaned(line: Seq<char>) -> Seq<char> {
    remove_char(last_token(line), ';')
}

/// The cleaned token splits into exactly a keyspace and a table name.
pub open spec fn from_target_qualified(line: Seq<char>) -> bool {
    &&& from_token_usable(line)
    &&& from_token_cleaned(line).contains('.')
    &&& split_char(from_token_cleaned(line), '.').len() == 2
}

/// The cleaned token is a bare table name.
pub open spec fn from_target_bare(line: Seq<char>) -> bool {
    &&& from_token_usable(line)
    &&& !from_token_cleaned(line).contains('.')
}

/// Extracts the table reference typed after `from` on the line.
pub fn from_target(line: &Vec<char>) -> (r: FromTarget)
    ensures
        match r {
            FromTarget::Qualified(ks, tb) => from_target_qualified(line@) && ks@ == split_char(
                from_token_cleaned(line@),
                '.',
            )[0] && tb@ == split_char(from_token_cleaned(line@), '.')[1],
            FromTarget::Bare(tb) => from_target_bare(line@) && tb@ == from_token_cleaned(line@),
            FromTarget::NoTarget => !from_target_qualified(line@) && !from_target_bare(line@),
        },
{
    if !containsi_exec(line, "from") {
        return FromTarget::NoTarget;
    }
    let lw = to_lower(line);
    let trimmed = trim_end(&lw);
    let t = split_sp_exec(&trimmed);
    assert(t.deep_view()[t@.len() - 1] == t@[t@.len() - 1]@);
    let last = &t[t.len() - 1];
    if contains_str(last, "from") || last.len() <= 1 {
        return FromTarget::NoTarget;
    }
    let cleaned = remove_char_exec(last, ';');
    if contains_char(&cleaned, '.') {
        let parts = split_char_exec(&cleaned, '.');
        if parts.len() == 2 {
            assert(parts.deep_view()[0] == parts@[0]@);
            assert(parts.deep_view()[1] == parts@[1]@);
            let ks = chars_to_string(&parts[0]);
            let tb = chars_to_string(&parts[1]);
            return FromTarget::Qualified(ks, tb);
        }
        return FromTarget::NoTarget;
    }
    FromTarget::Bare(chars_to_string(&cleaned))
}

} // verus!
