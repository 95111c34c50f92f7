//! The position classifier: a fixed set of predicates over a line, a cursor
//! offset and (for some) the whole document, evaluated in a fixed precedence
//! order to produce one `Context` per request.

use vstd::prelude::*;
use crate::text::{
    lower, to_lower, trim_end_spec, trim_end, trim_spec, trim, split_sp, split_sp_exec,
    contains_seq, contains_str, contains_char, subvec, ends_with, ends_with_str, eq_str,
    find_char, find_char_from, eq_vec,
};
use crate::scan::{containsi, containsi_exec, in_string_literal, is_in_string_literal,
    line_starts_with_kw};
use crate::keywords::{DropKind, drop_kind_word, drop_kind_word_exec, is_cql_type_word,
    is_cql_type_word_exec};

verus! {

/// The tokens the classifier works over: the line up to the cursor, trailing
/// whitespace trimmed, lower-cased, split on single spaces.
pub open spec fn prefix_tokens_spec(line: Seq<char>, pos: int) -> Seq<Seq<char>> {
    split_sp(lower(trim_end_spec(line.take(pos))))
}

pub fn prefix_tokens(line: &Vec<char>, pos: usize) -> (r: Vec<Vec<char>>)
    requires
        pos <= line@.len(),
    ensures
        r.deep_view() == prefix_tokens_spec(line@, pos as int),
        r@.len() >= 1,
{
    let prefix = subvec(line, 0, pos);
    let trimmed = trim_end(&prefix);
    let lw = to_lower(&trimmed);
    split_sp_exec(&lw)
}

/// Some token equals the given word.
pub open spec fn has_token(t: Seq<Seq<char>>, w: Seq<char>) -> bool {
    exists|i: int| 0 <= i < t.len() && t[i] == w
}

pub fn has_token_exec(t: &Vec<Vec<char>>, w: &str) -> (r: bool)
    ensures
        r == has_token(t.deep_view(), w@),
{
    let mut i: usize = 0;
    while i < t.len()
        invariant
            i <= t@.len(),
            forall|k: int| 0 <= k < i ==> t.deep_view()[k] != w@,
        decreases t.len() - i,
    {
        assert(t.deep_view()[i as int] == t@[i as int]@);
        if eq_str(&t[i], w) {
            return true;
        }
        i = i + 1;
    }
    false
}

/// The number of quote characters, single or double, among the first `pos`
/// characters of the line.
pub open spec fn quote_count(s: Seq<char>) -> int
    decreases s.len(),
{
    if s.len() == 0 {
        0
    } else {
        quote_count(s.drop_last()) + if s.last() == '"' || s.last() == '\'' {
            1int
        } else {
            0int
        }
    }
}

fn quote_count_exec(v: &Vec<char>, upto: usize) -> (r: usize)
    requires
        upto <= v@.len(),
    ensures
        r == quote_count(v@.take(upto as int)),
        r <= upto,
{
    let mut r: usize = 0;
    let mut i: usize = 0;
    while i < upto
        invariant
            i <= upto <= v@.len(),
            r == quote_count(v@.take(i as int)),
            r <= i,
        decreases upto - i,
    {
        assert(v@.take(i as int + 1).drop_last() =~= v@.take(i as int));
        if v[i] == '"' || v[i] == '\'' {
            r = r + 1;
        }
        i = i + 1;
    }
    r
}

/// A terminator stands strictly before the cursor.
pub open spec fn semicolon_before(line: Seq<char>, pos: int) -> bool {
    exists|k: int| 0 <= k < pos && k < line.len() && line[k] == ';'
}

fn semicolon_before_exec(line: &Vec<char>, pos: usize) -> (r: bool)
    requires
        pos <= line@.len(),
    ensures
        r == semicolon_before(line@, pos as int),
{
    let mut i: usize = 0;
    while i < pos
        invariant
            i <= pos <= line@.len(),
            forall|k: int| 0 <= k < i ==> line@[k] != ';',
        decreases pos - i,
    {
        if line[i] == ';' {
            return true;
        }
        i = i + 1;
    }
    false
}

/// Rule: the cursor sits on a USE statement, before its terminator and not
/// after a completed quoted name, so keyspace names may be offered.
pub open spec fn suggest_keyspace_ctx(line: Seq<char>, pos: int) -> bool {
    &&& 0 <= pos <= line.len()
    &&& !semicolon_before(line, pos)
    &&& quote_count(line.take(pos)) < 2
    &&& has_token(prefix_tokens_spec(line, pos), "use"@)
    &&& (prefix_tokens_spec(line, pos).len() == 1 || prefix_tokens_spec(line, pos)[0] == "use"@)
}

pub fn should_suggest_keyspaces(line: &Vec<char>, pos: usize) -> (r: bool)
    ensures
        r == suggest_keyspace_ctx(line@, pos as int),
{
    if pos > line.len() {
        return false;
    }
    if semicolon_before_exec(line, pos) {
        return false;
    }
    if quote_count_exec(line, pos) >= 2 {
        return false;
    }
    let t = prefix_tokens(line, pos);
    if !has_token_exec(&t, "use") {
        return false;
    }
    assert(t.deep_view()[0] == t@[0]@);
    if t.len() == 1 || eq_str(&t[0], "use") {
        return true;
    }
    false
}

/// Rule: the line reads `drop <kind> ...` and the cursor stands strictly
/// after the kind keyword, before any terminator.
pub open spec fn drop_object_ctx(line: Seq<char>, pos: int, kind: DropKind) -> bool {
    let t = split_sp(lower(line));
    &&& 0 <= pos <= line.len()
    &&& t.len() >= 2
    &&& t[0] == "drop"@
    &&& t[1] == drop_kind_word(kind)
    &&& pos > 5 + drop_kind_word(kind).len()
    &&& !semicolon_before(line, pos)
}

pub fn should_suggest_drop_object(line: &Vec<char>, pos: usize, kind: DropKind) -> (r: bool)
    ensures
        r == drop_object_ctx(line@, pos as int, kind),
{
    if pos > line.len() {
        return false;
    }
    let lw = to_lower(line);
    let t = split_sp_exec(&lw);
    if t.len() < 2 {
        return false;
    }
    assert(t.deep_view()[0] == t@[0]@);
    assert(t.deep_view()[1] == t@[1]@);
    if !eq_str(&t[0], "drop") {
        return false;
    }
    let kw = drop_kind_word_exec(kind);
    if !eq_vec(&t[1], &kw) {
        return false;
    }
    if !(pos > 5 && pos - 5 > kw.len()) {
        return false;
    }
    !semicolon_before_exec(line, pos)
}

/// The droppable kind the line names, when the drop-object rule matches.
pub open spec fn drop_object_kind(line: Seq<char>, pos: int) -> Option<DropKind> {
    if drop_object_ctx(line, pos, DropKind::Keyspace) {
        Some(DropKind::Keyspace)
    } else if drop_object_ctx(line, pos, DropKind::Table) {
        Some(DropKind::Table)
    } else if drop_object_ctx(line, pos, DropKind::Aggregate) {
        Some(DropKind::Aggregate)
    } else if drop_object_ctx(line, pos, DropKind::Function) {
        Some(DropKind::Function)
    } else if drop_object_ctx(line, pos, DropKind::Index) {
        Some(DropKind::Index)
    } else if drop_object_ctx(line, pos, DropKind::Type) {
        Some(DropKind::Type)
    } else if drop_object_ctx(line, pos, DropKind::View) {
        Some(DropKind::View)
    } else {
        None
    }
}

pub fn drop_object_kind_exec(line: &Vec<char>, pos: usize) -> (r: Option<DropKind>)
    ensures
        r == drop_object_kind(line@, pos as int),
{
    if should_suggest_drop_object(line, pos, DropKind::Keyspace) {
        Some(DropKind::Keyspace)
    } else if should_suggest_drop_object(line, pos, DropKind::Table) {
        Some(DropKind::Table)
    } else if should_suggest_drop_object(line, pos, DropKind::Aggregate) {
        Some(DropKind::Aggregate)
    } else if should_suggest_drop_object(line, pos, DropKind::Function) {
        Some(DropKind::Function)
    } else if should_suggest_drop_object(line, pos, DropKind::Index) {
        Some(DropKind::Index)
    } else if should_suggest_drop_object(line, pos, DropKind::Type) {
        Some(DropKind::Type)
    } else if should_suggest_drop_object(line, pos, DropKind::View) {
        Some(DropKind::View)
    } else {
        None
    }
}

/// Rule: the cursor still sits on the verb of a CREATE, ALTER or DROP
/// statement: at most two tokens are typed and the first one is the verb.
pub open spec fn verb_kw_ctx(line: Seq<char>, pos: int, verb: Seq<char>) -> bool {
    let t = split_sp(lower(line.take(pos)));
    &&& 0 <= pos <= line.len()
    &&& t[0] == verb
    &&& t.len() <= 2
}

fn should_suggest_verb_keywords(line: &Vec<char>, pos: usize, verb: &str) -> (r: bool)
    ensures
        r == verb_kw_ctx(line@, pos as int, verb@),
{
    if pos > line.len() {
        return false;
    }
    let prefix = subvec(line, 0, pos);
    let lw = to_lower(&prefix);
    let t = split_sp_exec(&lw);
    assert(t.deep_view()[0] == t@[0]@);
    eq_str(&t[0], verb) && t.len() <= 2
}

pub fn should_suggest_create_keywords(line: &Vec<char>, pos: usize) -> (r: bool)
    ensures
        r == verb_kw_ctx(line@, pos as int, "create"@),
{
    should_suggest_verb_keywords(line, pos, "create")
}

pub fn should_suggest_alter_keywords(line: &Vec<char>, pos: usize) -> (r: bool)
    ensures
        r == verb_kw_ctx(line@, pos as int, "alter"@),
{
    should_suggest_verb_keywords(line, pos, "alter")
}

pub fn should_suggest_drop_keywords(line: &Vec<char>, pos: usize) -> (r: bool)
    ensures
        r == verb_kw_ctx(line@, pos as int, "drop"@),
{
    should_suggest_verb_keywords(line, pos, "drop")
}

/// One of the nine object kinds a CREATE statement can name.
pub open spec fn is_creatable_kind(t: Seq<char>) -> bool {
    ||| t == "table"@
    ||| t == "view"@
    ||| t == "keyspace"@
    ||| t == "aggregate"@
    ||| t == "function"@
    ||| t == "index"@
    ||| t == "role"@
    ||| t == "type"@
    ||| t == "user"@
}

fn is_creatable_kind_exec(t: &Vec<char>) -> (r: bool)
    ensures
        r == is_creatable_kind(t@),
{
    eq_str(t, "table") || eq_str(t, "view") || eq_str(t, "keyspace") || eq_str(t, "aggregate")
        || eq_str(t, "function") || eq_str(t, "index") || eq_str(t, "role") || eq_str(t, "type")
        || eq_str(t, "user")
}

/// Rule: the cursor stands right after the object kind of a CREATE
/// statement, where IF NOT EXISTS may be inserted.
pub open spec fn if_not_exists_ctx(line: Seq<char>, pos: int) -> bool {
    let t = split_sp(lower(line.take(pos)));
    &&& 0 <= pos <= line.len()
    &&& t.len() >= 2
    &&& has_token(t, "create"@)
    &&& (is_creatable_kind(t[t.len() - 1]) || is_creatable_kind(t[t.len() - 2]))
}

pub fn should_suggest_if_not_exists(line: &Vec<char>, pos: usize) -> (r: bool)
    ensures
        r == if_not_exists_ctx(line@, pos as int),
{
    if pos > line.len() {
        return false;
    }
    let prefix = subvec(line, 0, pos);
    let lw = to_lower(&prefix);
    let t = split_sp_exec(&lw);
    if t.len() < 2 {
        return false;
    }
    if !has_token_exec(&t, "create") {
        return false;
    }
    assert(t.deep_view()[t@.len() - 1] == t@[t@.len() - 1]@);
    assert(t.deep_view()[t@.len() - 2] == t@[t@.len() - 2]@);
    is_creatable_kind_exec(&t[t.len() - 1]) || is_creatable_kind_exec(&t[t.len() - 2])
}

/// Rule: the cursor sits inside a `graph_engine = ` assignment.
pub open spec fn graph_engine_ctx(line: Seq<char>, pos: int) -> bool {
    let t = split_sp(trim_end_spec(line.take(pos)));
    &&& 0 <= pos <= line.len()
    &&& t.len() >= 2
    &&& t[0] == "graph_engine"@
    &&& t[1] == "="@
}

pub fn should_suggest_graph_engine_types(line: &Vec<char>, pos: usize) -> (r: bool)
    ensures
        r == graph_engine_ctx(line@, pos as int),
{
    if pos > line.len() {
        return false;
    }
    let prefix = subvec(line, 0, pos);
    let trimmed = trim_end(&prefix);
    let t = split_sp_exec(&trimmed);
    if t.len() < 2 {
        return false;
    }
    assert(t.deep_view()[0] == t@[0]@);
    assert(t.deep_view()[1] == t@[1]@);
    eq_str(&t[0], "graph_engine") && eq_str(&t[1], "=")
}

/// The line up to the cursor ends in whitespace: the last token before the
/// cursor is complete.
pub open spec fn prefix_ends_open(line: Seq<char>, pos: int) -> bool {
    trim_end_spec(line.take(pos)).len() != line.take(pos).len()
}

fn prefix_ends_open_exec(line: &Vec<char>, pos: usize) -> (r: bool)
    requires
        pos <= line@.len(),
    ensures
        r == prefix_ends_open(line@, pos as int),
{
    let prefix = subvec(line, 0, pos);
    let trimmed = trim_end(&prefix);
    trimmed.len() != prefix.len()
}

/// The token ends in a comma: the selector list continues past it.
pub open spec fn token_ends_comma(t: Seq<char>) -> bool {
    t.len() > 0 && t.last() == ','
}

fn token_ends_comma_exec(t: &Vec<char>) -> (r: bool)
    ensures
        r == token_ends_comma(t@),
{
    t.len() > 0 && t[t.len() - 1] == ','
}

/// Rule: the cursor continues a SELECT selector list.  After `select` alone
/// anything may be named; a further selector may be added only while the
/// comma-continuation rule holds: the token being typed, or the completed
/// token before the cursor, ends in a comma.
pub open spec fn fields_ctx(line: Seq<char>, pos: int) -> bool {
    let t = prefix_tokens_spec(line, pos);
    &&& 0 <= pos <= line.len()
    &&& has_token(t, "select"@)
    &&& !has_token(t, "*"@)
    &&& !has_token(t, "from"@)
    &&& {
        ||| t.len() == 1
        ||| (prefix_ends_open(line, pos) && (token_ends_comma(t[t.len() - 1]) || (t.len() >= 2
            && token_ends_comma(t[t.len() - 2]))))
        ||| (!prefix_ends_open(line, pos) && (t.len() == 2 || token_ends_comma(t[t.len() - 2])))
    }
}

pub fn should_suggest_fields(line: &Vec<char>, pos: usize) -> (r: bool)
    ensures
        r == fields_ctx(line@, pos as int),
{
    if pos > line.len() {
        return false;
    }
    let t = prefix_tokens(line, pos);
    if !has_token_exec(&t, "select") || has_token_exec(&t, "*") || has_token_exec(&t, "from") {
        return false;
    }
    if t.len() == 1 {
        return true;
    }
    assert(t.deep_view()[t@.len() - 1] == t@[t@.len() - 1]@);
    assert(t.deep_view()[t@.len() - 2] == t@[t@.len() - 2]@);
    if prefix_ends_open_exec(line, pos) {
        token_ends_comma_exec(&t[t.len() - 1]) || token_ends_comma_exec(&t[t.len() - 2])
    } else {
        t.len() == 2 || token_ends_comma_exec(&t[t.len() - 2])
    }
}

/// Rule: a selector list is complete and the FROM keyword comes next.
pub open spec fn from_ctx(line: Seq<char>, pos: int) -> bool {
    let t = prefix_tokens_spec(line, pos);
    &&& 0 <= pos <= line.len()
    &&& has_token(t, "select"@)
    &&& !has_token(t, "from"@)
    &&& !containsi(line, "from"@)
    &&& !(t.len() == 1 && prefix_ends_open(line, pos))
    &&& !(t.len() == 2 && !prefix_ends_open(line, pos))
    &&& !(t.len() >= 3 && t[t.len() - 1].contains(','))
}

pub fn should_suggest_from(line: &Vec<char>, pos: usize) -> (r: bool)
    ensures
        r == from_ctx(line@, pos as int),
{
    if pos > line.len() {
        return false;
    }
    let t = prefix_tokens(line, pos);
    if !has_token_exec(&t, "select") || has_token_exec(&t, "from") || containsi_exec(
        line,
        "from",
    ) {
        return false;
    }
    let open = prefix_ends_open_exec(line, pos);
    if t.len() == 1 && open {
        return false;
    }
    if t.len() == 2 && !open {
        return false;
    }
    assert(t.deep_view()[t@.len() - 1] == t@[t@.len() - 1]@);
    if t.len() >= 3 && contains_char(&t[t.len() - 1], ',') {
        return false;
    }
    true
}

/// Some token holds the pattern as a substring.
pub open spec fn token_with(t: Seq<Seq<char>>, i: int, pat: Seq<char>) -> bool {
    0 <= i < t.len() && contains_seq(t[i], pat)
}

/// Rule: the cursor stands where a table name is expected: after UPDATE,
/// after INSERT ... INTO, after DROP TABLE, or after SELECT ... FROM.
pub open spec fn table_ctx(line: Seq<char>, pos: int) -> bool {
    let t = prefix_tokens_spec(line, pos);
    let n = t.len() as int;
    if !(0 <= pos <= line.len()) {
        false
    } else if find_char(line, ';') < line.len() && pos > find_char(line, ';') {
        false
    } else if n <= 2 && contains_seq(t[0], "update"@) {
        true
    } else if n >= 2 && (token_with(t, n - 2, "insert"@) || token_with(t, n - 1, "into"@)) {
        true
    } else if n >= 2 && contains_seq(t[0], "drop"@) && contains_seq(t[1], "table"@) && ((
    token_with(t, n - 2, "drop"@) && token_with(t, n - 1, "table"@)) || (n > 2 && token_with(
        t,
        n - 3,
        "drop"@,
    ) && token_with(t, n - 2, "table"@) && !prefix_ends_open(line, pos))) {
        true
    } else if n >= 3 && (token_with(t, n - 2, "insert"@) || token_with(t, n - 1, "into"@)
        || token_with(t, n - 3, "insert"@) || token_with(t, n - 2, "into"@)) {
        true
    } else if !has_token(t, "select"@) && !has_token(t, "from"@) {
        false
    } else if n >= 2 && !token_with(t, n - 2, "from"@) && !token_with(t, n - 1, "from"@) {
        false
    } else if n >= 2 && token_with(t, n - 2, "from"@) && prefix_ends_open(line, pos) {
        false
    } else {
        true
    }
}

pub fn should_suggest_table_completions(line: &Vec<char>, pos: usize) -> (r: bool)
    ensures
        r == table_ctx(line@, pos as int),
{
    if pos > line.len() {
        return false;
    }
    let semi = find_char_from(line, ';', 0);
    proof {
        crate::text::lemma_find_char_is(line@, ';', semi as int);
    }
    if semi < line.len() && pos > semi {
        return false;
    }
    let t = prefix_tokens(line, pos);
    let n = t.len();
    assert(t.deep_view()[0] == t@[0]@);
    if n <= 2 && contains_str(&t[0], "update") {
        return true;
    }
    assert(forall|k: int| 0 <= k < t@.len() ==> t.deep_view()[k] == t@[k]@);
    if n >= 2 && (contains_str(&t[n - 2], "insert") || contains_str(&t[n - 1], "into")) {
        return true;
    }
    let open = prefix_ends_open_exec(line, pos);
    if n >= 2 && contains_str(&t[0], "drop") && contains_str(&t[1], "table") {
        if (contains_str(&t[n - 2], "drop") && contains_str(&t[n - 1], "table")) || (n > 2
            && contains_str(&t[n - 3], "drop") && contains_str(&t[n - 2], "table") && !open) {
            return true;
        }
    }
    if n >= 3 && (contains_str(&t[n - 2], "insert") || contains_str(&t[n - 1], "into")
        || contains_str(&t[n - 3], "insert") || contains_str(&t[n - 2], "into")) {
        return true;
    }
    if !has_token_exec(&t, "select") && !has_token_exec(&t, "from") {
        return false;
    }
    if n >= 2 && !contains_str(&t[n - 2], "from") && !contains_str(&t[n - 1], "from") {
        return false;
    }
    if n >= 2 && contains_str(&t[n - 2], "from") && open {
        return false;
    }
    true
}

/// Scanning upward from line `i`, the first decisive line opens an
/// unclosed CREATE TABLE column block; any other statement aborts the scan.
pub open spec fn create_table_above(lines: Seq<Seq<char>>, i: int) -> bool
    decreases (if i < 0 { 0int } else { i + 1 }),
{
    if i < 0 || i >= lines.len() {
        false
    } else if containsi(lines[i], "create table"@) && lines[i].contains('(') && !lines[i].contains(
        ')',
    ) {
        true
    } else if line_starts_with_kw(lines[i]) {
        false
    } else {
        create_table_above(lines, i - 1)
    }
}

/// Scanning downward from line `i`, a closing parenthesis comes before any
/// new statement.
pub open spec fn close_paren_below(lines: Seq<Seq<char>>, i: int) -> bool
    decreases (if i > lines.len() { 0int } else { lines.len() - i }),
{
    if i < 0 || i >= lines.len() {
        false
    } else if line_starts_with_kw(lines[i]) {
        false
    } else if lines[i].contains(')') {
        true
    } else {
        close_paren_below(lines, i + 1)
    }
}

/// The cursor sits inside the parenthesised column block of a CREATE TABLE
/// statement, either on the statement's own line between the brackets, or
/// on a later line with the opener above and the closer below.
pub open spec fn inside_create_table(line: Seq<char>, pos: int, index: int, lines: Seq<
    Seq<char>,
>) -> bool {
    if !(0 <= pos <= line.len()) {
        false
    } else {
        let prefix = line.take(pos);
        let t = split_sp(lower(prefix));
        if t.len() < 2 {
            false
        } else if t[0] == "create"@ && t[1] == "table"@ && line.contains('(') && line.contains(')')
            && prefix.contains('(') && !prefix.contains(')') {
            true
        } else {
            &&& 0 <= index < lines.len()
            &&& create_table_above(lines, index)
            &&& close_paren_below(lines, index + 1)
        }
    }
}

fn create_table_above_exec(lines: &Vec<Vec<char>>, i: usize) -> (r: bool)
    requires
        i < lines@.len(),
    ensures
        r == create_table_above(lines.deep_view(), i as int),
{
    let mut j: usize = i;
    loop
        invariant
            j <= i < lines@.len(),
            create_table_above(lines.deep_view(), i as int) == create_table_above(
                lines.deep_view(),
                j as int,
            ),
        decreases j,
    {
        assert(lines.deep_view()[j as int] == lines@[j as int]@);
        if containsi_exec(&lines[j], "create table") && contains_char(&lines[j], '(')
            && !contains_char(&lines[j], ')') {
            assert(create_table_above(lines.deep_view(), j as int));
            return true;
        }
        if crate::scan::line_contains_cql_kw(&lines[j]) {
            assert(!create_table_above(lines.deep_view(), j as int));
            return false;
        }
        if j == 0 {
            assert(!create_table_above(lines.deep_view(), -1));
            return false;
        }
        j = j - 1;
    }
}

fn close_paren_below_exec(lines: &Vec<Vec<char>>, i: usize) -> (r: bool)
    requires
        i <= lines@.len(),
    ensures
        r == close_paren_below(lines.deep_view(), i as int),
{
    let mut j: usize = i;
    while j < lines.len()
        invariant
            i <= j <= lines@.len(),
            close_paren_below(lines.deep_view(), i as int) == close_paren_below(
                lines.deep_view(),
                j as int,
            ),
        decreases lines.len() - j,
    {
        assert(lines.deep_view()[j as int] == lines@[j as int]@);
        if crate::scan::line_contains_cql_kw(&lines[j]) {
            return false;
        }
        if contains_char(&lines[j], ')') {
            return true;
        }
        j = j + 1;
    }
    false
}

/// Whether the cursor sits inside a CREATE TABLE column block.
pub fn is_inside_create_table(line: &Vec<char>, pos: usize, index: usize, lines: &Vec<Vec<char>>)
    -> (r: bool)
    ensures
        r == inside_create_table(line@, pos as int, index as int, lines.deep_view()),
{
    if pos > line.len() {
        return false;
    }
    let prefix = subvec(line, 0, pos);
    let lw = to_lower(&prefix);
    let t = split_sp_exec(&lw);
    if t.len() < 2 {
        return false;
    }
    assert(t.deep_view()[0] == t@[0]@);
    assert(t.deep_view()[1] == t@[1]@);
    if eq_str(&t[0], "create") && eq_str(&t[1], "table") && contains_char(line, '(')
        && contains_char(line, ')') && contains_char(&prefix, '(') && !contains_char(
        &prefix,
        ')',
    ) {
        return true;
    }
    if index >= lines.len() {
        return false;
    }
    if !create_table_above_exec(lines, index) {
        return false;
    }
    close_paren_below_exec(lines, index + 1)
}

/// The character just before the cursor is a space.
pub open spec fn prefix_ends_space(line: Seq<char>, pos: int) -> bool {
    0 < pos <= line.len() && line[pos - 1] == ' '
}

/// Rule: inside a CREATE TABLE column block, a column name has just been
/// completed, or a type is being typed as the second token, so a column
/// type may be offered.
pub open spec fn column_type_ctx(line: Seq<char>, pos: int, index: int, lines: Seq<
    Seq<char>,
>) -> bool {
    let t = split_sp(trim_spec(line.take(pos)));
    &&& inside_create_table(line, pos, index, lines)
    &&& 0 <= pos <= line.len()
    &&& {
        ||| (t.len() == 1 && prefix_ends_space(line, pos))
        ||| (t.len() == 2 && !prefix_ends_space(line, pos))
    }
}

pub fn should_suggest_types_completions(
    line: &Vec<char>,
    pos: usize,
    index: usize,
    lines: &Vec<Vec<char>>,
) -> (r: bool)
    ensures
        r == column_type_ctx(line@, pos as int, index as int, lines.deep_view()),
{
    if pos > line.len() {
        return false;
    }
    if !is_inside_create_table(line, pos, index, lines) {
        return false;
    }
    let prefix = subvec(line, 0, pos);
    let trimmed = trim(&prefix);
    let t = split_sp_exec(&trimmed);
    let ends_sp = pos > 0 && line[pos - 1] == ' ';
    (t.len() == 1 && ends_sp) || (t.len() == 2 && !ends_sp)
}

/// Rule: inside a CREATE TABLE column block, a column name and a known type
/// are already typed, so a type modifier such as PRIMARY KEY or STATIC may
/// be offered.
pub open spec fn type_modifier_ctx(line: Seq<char>, pos: int, index: int, lines: Seq<
    Seq<char>,
>) -> bool {
    let t = split_sp(lower(trim_spec(line.take(pos))));
    &&& inside_create_table(line, pos, index, lines)
    &&& 0 <= pos <= line.len()
    &&& {
        ||| (t.len() == 2 && prefix_ends_space(line, pos) && is_cql_type_word(t[1]))
        ||| (t.len() == 3 && !prefix_ends_space(line, pos) && is_cql_type_word(t[1]))
        ||| (t.len() == 3 && prefix_ends_space(line, pos) && is_cql_type_word(t[1]) && t[2]
            == "primary"@)
        ||| (t.len() == 4 && !prefix_ends_space(line, pos) && is_cql_type_word(t[1]) && t[2]
            == "primary"@)
    }
}

pub fn should_suggest_type_modifiers(
    line: &Vec<char>,
    pos: usize,
    index: usize,
    lines: &Vec<Vec<char>>,
) -> (r: bool)
    ensures
        r == type_modifier_ctx(line@, pos as int, index as int, lines.deep_view()),
{
    if pos > line.len() {
        return false;
    }
    if !is_inside_create_table(line, pos, index, lines) {
        return false;
    }
    let prefix = subvec(line, 0, pos);
    let trimmed = trim(&prefix);
    let lw = to_lower(&trimmed);
    let t = split_sp_exec(&lw);
    let ends_sp = pos > 0 && line[pos - 1] == ' ';
    if t.len() == 2 {
        assert(t.deep_view()[1] == t@[1]@);
        return ends_sp && is_cql_type_word_exec(&t[1]);
    }
    if t.len() == 3 {
        assert(t.deep_view()[1] == t@[1]@);
        assert(t.deep_view()[2] == t@[2]@);
        return (!ends_sp && is_cql_type_word_exec(&t[1])) || (ends_sp && is_cql_type_word_exec(
            &t[1],
        ) && eq_str(&t[2], "primary"));
    }
    if t.len() == 4 {
        assert(t.deep_view()[1] == t@[1]@);
        assert(t.deep_view()[2] == t@[2]@);
        return !ends_sp && is_cql_type_word_exec(&t[1]) && eq_str(&t[2], "primary");
    }
    false
}

/// Scanning upward from the cursor's line, an opening parenthesis stands on
/// the current statement, before any keyword or terminator boundary.
pub open spec fn unclosed_paren_above(lines: Seq<Seq<char>>, i: int) -> bool
    decreases (if i < 0 { 0int } else { i + 1 }),
{
    if i < 0 || i >= lines.len() {
        false
    } else if lines[i].contains('(') {
        true
    } else if line_starts_with_kw(lines[i]) || lines[i].contains(';') {
        false
    } else {
        unclosed_paren_above(lines, i - 1)
    }
}

fn unclosed_paren_above_exec(lines: &Vec<Vec<char>>, i: usize) -> (r: bool)
    requires
        i < lines@.len(),
    ensures
        r == unclosed_paren_above(lines.deep_view(), i as int),
{
    let mut j: usize = i;
    loop
        invariant
            j <= i < lines@.len(),
            unclosed_paren_above(lines.deep_view(), i as int) == unclosed_paren_above(
                lines.deep_view(),
                j as int,
            ),
        decreases j,
    {
        assert(lines.deep_view()[j as int] == lines@[j as int]@);
        if contains_char(&lines[j], '(') {
            assert(unclosed_paren_above(lines.deep_view(), j as int));
            return true;
        }
        if crate::scan::line_contains_cql_kw(&lines[j]) || contains_char(&lines[j], ';') {
            assert(!unclosed_paren_above(lines.deep_view(), j as int));
            return false;
        }
        if j == 0 {
            assert(!unclosed_paren_above(lines.deep_view(), -1));
            return false;
        }
        j = j - 1;
    }
}

/// The cursor stands past the last occurrence of an object-kind keyword of
/// a CREATE (or, where allowed, ALTER) statement whose name comes next, so
/// generic keywords are out of place.
pub open spec fn suppressed_after(
    line: Seq<char>,
    pos: int,
    guard: Seq<char>,
    kind: Seq<char>,
    alter_too: bool,
) -> bool {
    let t = prefix_tokens_spec(line, pos);
    &&& (containsi(line, "create"@) || (alter_too && containsi(line, "alter"@)))
    &&& containsi(line, guard)
    &&& pos > crate::text::rfind_seq(lower(line), kind) + kind.len()
    &&& (t[t.len() - 1] == kind || (t.len() >= 2 && t[t.len() - 2] == kind))
}

fn suppressed_after_exec(
    line: &Vec<char>,
    pos: usize,
    t: &Vec<Vec<char>>,
    guard: &str,
    kind: &str,
    alter_too: bool,
) -> (r: bool)
    requires
        pos <= line@.len(),
        t.deep_view() == prefix_tokens_spec(line@, pos as int),
        t@.len() >= 1,
    ensures
        r == suppressed_after(line@, pos as int, guard@, kind@, alter_too),
{
    if !(containsi_exec(line, "create") || (alter_too && containsi_exec(line, "alter"))) {
        return false;
    }
    if !containsi_exec(line, guard) {
        return false;
    }
    let lw = to_lower(line);
    let kcs = crate::text::to_chars(kind);
    let ll = lw.len();
    let past: bool = match crate::text::rfind_str(&lw, kind) {
        Some(i) => pos > i + kcs.len(),
        None => pos >= kcs.len(),
    };
    if !past {
        return false;
    }
    assert(t.deep_view()[t@.len() - 1] == t@[t@.len() - 1]@);
    assert(t@.len() < 2 || t.deep_view()[t@.len() - 2] == t@[t@.len() - 2]@);
    eq_str(&t[t.len() - 1], kind) || (t.len() >= 2 && eq_str(&t[t.len() - 2], kind))
}

/// The line names one of the droppable object kinds.
pub open spec fn drop_kind_mentioned(line: Seq<char>) -> bool {
    ||| containsi(line, "table"@)
    ||| containsi(line, "index"@)
    ||| containsi(line, "keyspace"@)
    ||| (containsi(line, "materialized"@) && containsi(line, "view"@))
    ||| containsi(line, "role"@)
    ||| (containsi(line, "search"@) && containsi(line, "index"@))
    ||| containsi(line, "type"@)
    ||| containsi(line, "user"@)
    ||| containsi(line, "function"@)
    ||| containsi(line, "aggregate"@)
}

fn drop_kind_mentioned_exec(line: &Vec<char>) -> (r: bool)
    ensures
        r == drop_kind_mentioned(line@),
{
    containsi_exec(line, "table") || containsi_exec(line, "index") || containsi_exec(
        line,
        "keyspace",
    ) || (containsi_exec(line, "materialized") && containsi_exec(line, "view")) || containsi_exec(
        line,
        "role",
    ) || (containsi_exec(line, "search") && containsi_exec(line, "index")) || containsi_exec(
        line,
        "type",
    ) || containsi_exec(line, "user") || containsi_exec(line, "function") || containsi_exec(
        line,
        "aggregate",
    )
}

/// Rule: nothing more specific applies and generic keywords may be offered:
/// the cursor is not in a comment, not past a terminator, not inside an
/// unclosed parenthesis on the current statement, not where an object name
/// or a table is expected, and not inside an AND or WHERE expression.
pub open spec fn keywords_ctx(line: Seq<char>, pos: int, index: int, lines: Seq<Seq<char>>) -> bool {
    if !(0 <= pos <= line.len()) {
        false
    } else {
        let prefix = line.take(pos);
        let t = prefix_tokens_spec(line, pos);
        let n = t.len() as int;
        if contains_seq(prefix, "--"@) || contains_seq(prefix, "//"@) || contains_seq(
            prefix,
            "/*"@,
        ) || ends_with(line, "*/"@) {
            false
        } else if find_char(line, ';') < line.len() && pos > find_char(line, ';') {
            false
        } else if containsi(line, "use"@) {
            false
        } else if containsi(line, "select"@) && containsi(line, "from"@) && find_char(line, ';')
            < line.len() && pos < find_char(line, ';') + 1 {
            false
        } else if t[n - 1].contains(';') {
            false
        } else if n >= 2 && (contains_seq(t[n - 1], "from"@) || contains_seq(t[n - 2], "from"@)) {
            false
        } else if line.contains('(') && !line.contains(')') {
            false
        } else if line.contains('(') && line.contains(')') && find_char(line, ')') >= pos {
            false
        } else if containsi(line, "drop"@) && drop_kind_mentioned(line) && n >= 3 {
            false
        } else if crate::scan::in_ml_comment(line, index, lines) {
            false
        } else if unclosed_paren_above(lines, index) {
            false
        } else if suppressed_after(line, pos, "if not exists"@, "exists"@, false) {
            false
        } else if suppressed_after(line, pos, "table"@, "table"@, true) {
            false
        } else if suppressed_after(line, pos, "aggregate"@, "aggregate"@, false) {
            false
        } else if suppressed_after(line, pos, "function"@, "function"@, false) {
            false
        } else if suppressed_after(line, pos, "index"@, "index"@, false) {
            false
        } else if suppressed_after(line, pos, "keyspace"@, "keyspace"@, true) {
            false
        } else if suppressed_after(line, pos, "view"@, "view"@, true) {
            false
        } else if suppressed_after(line, pos, "role"@, "role"@, true) {
            false
        } else if suppressed_after(line, pos, "type"@, "type"@, true) {
            false
        } else if suppressed_after(line, pos, "user"@, "user"@, true) {
            false
        } else if n >= 2 && (contains_seq(t[n - 1], "and"@) || contains_seq(t[n - 2], "and"@)) {
            false
        } else if n >= 2 && (contains_seq(t[n - 1], "where"@) || contains_seq(t[n - 2], "where"@)) {
            false
        } else {
            true
        }
    }
}

pub fn should_suggest_keywords(
    line: &Vec<char>,
    pos: usize,
    index: usize,
    lines: &Vec<Vec<char>>,
) -> (r: bool)
    requires
        lines@.len() > 0,
        index < lines@.len(),
    ensures
        r == keywords_ctx(line@, pos as int, index as int, lines.deep_view()),
{
    if pos > line.len() {
        return false;
    }
    let prefix = subvec(line, 0, pos);
    if contains_str(&prefix, "--") || contains_str(&prefix, "//") || contains_str(&prefix, "/*")
        || ends_with_str(line, "*/") {
        return false;
    }
    let semi = find_char_from(line, ';', 0);
    proof {
        crate::text::lemma_find_char_is(line@, ';', semi as int);
    }
    if semi < line.len() && pos > semi {
        return false;
    }
    if containsi_exec(line, "use") {
        return false;
    }
    if containsi_exec(line, "select") && containsi_exec(line, "from") && semi < line.len() && pos
        < semi + 1 {
        return false;
    }
    let t = prefix_tokens(line, pos);
    let n = t.len();
    assert(forall|k: int| 0 <= k < t@.len() ==> t.deep_view()[k] == t@[k]@);
    if contains_char(&t[n - 1], ';') {
        return false;
    }
    if n >= 2 && (contains_str(&t[n - 1], "from") || contains_str(&t[n - 2], "from")) {
        return false;
    }
    let has_open = contains_char(line, '(');
    let has_close = contains_char(line, ')');
    if has_open && !has_close {
        return false;
    }
    if has_open && has_close {
        let posx = find_char_from(line, ')', 0);
        proof {
            crate::text::lemma_find_char_is(line@, ')', posx as int);
        }
        if posx >= pos {
            return false;
        }
    }
    if containsi_exec(line, "drop") && drop_kind_mentioned_exec(line) && n >= 3 {
        return false;
    }
    if crate::scan::is_line_in_multiline_comment(line, index, lines) {
        return false;
    }
    if unclosed_paren_above_exec(lines, index) {
        return false;
    }
    if suppressed_after_exec(line, pos, &t, "if not exists", "exists", false) {
        return false;
    }
    if suppressed_after_exec(line, pos, &t, "table", "table", true) {
        return false;
    }
    if suppressed_after_exec(line, pos, &t, "aggregate", "aggregate", false) {
        return false;
    }
    if suppressed_after_exec(line, pos, &t, "function", "function", false) {
        return false;
    }
    if suppressed_after_exec(line, pos, &t, "index", "index", false) {
        return false;
    }
    if suppressed_after_exec(line, pos, &t, "keyspace", "keyspace", true) {
        return false;
    }
    if suppressed_after_exec(line, pos, &t, "view", "view", true) {
        return false;
    }
    if suppressed_after_exec(line, pos, &t, "role", "role", true) {
        return false;
    }
    if suppressed_after_exec(line, pos, &t, "type", "type", true) {
        return false;
    }
    if suppressed_after_exec(line, pos, &t, "user", "user", true) {
        return false;
    }
    if n >= 2 && (contains_str(&t[n - 1], "and") || contains_str(&t[n - 2], "and")) {
        return false;
    }
    if n >= 2 && (contains_str(&t[n - 1], "where") || contains_str(&t[n - 2], "where")) {
        return false;
    }
    true
}

/// What the cursor's position asks for: the one completion strategy that
/// applies there.
#[derive(Clone, Copy, PartialEq, Eq, Structural, Debug)]
pub enum Context {
    InStringLiteral,
    SuggestKeyspace,
    SuggestGraphEngineType,
    SuggestKeywords,
    SuggestFields,
    SuggestFrom,
    SuggestTable,
    SuggestIfNotExists,
    SuggestCreateKeyword,
    SuggestAlterKeyword,
    SuggestDropKeyword,
    SuggestDropObjectName(DropKind),
    SuggestColumnType,
    SuggestTypeModifier,
    NoSuggestion,
}

/// The classifier's fixed precedence order: the first matching rule wins.
/// A cursor inside a string literal yields `InStringLiteral` unless the
/// line is a USE statement or a graph-engine assignment, whose quoted
/// values may still be completed.
pub open spec fn classify_spec(line: Seq<char>, pos: int, index: int, lines: Seq<
    Seq<char>,
>) -> Context {
    let in_str = in_string_literal(line, pos);
    if in_str && !suggest_keyspace_ctx(line, pos) && !graph_engine_ctx(line, pos) {
        Context::InStringLiteral
    } else if suggest_keyspace_ctx(line, pos) {
        Context::SuggestKeyspace
    } else if drop_object_kind(line, pos) is Some {
        Context::SuggestDropObjectName(drop_object_kind(line, pos)->Some_0)
    } else if verb_kw_ctx(line, pos, "create"@) {
        Context::SuggestCreateKeyword
    } else if verb_kw_ctx(line, pos, "alter"@) {
        Context::SuggestAlterKeyword
    } else if verb_kw_ctx(line, pos, "drop"@) {
        Context::SuggestDropKeyword
    } else if if_not_exists_ctx(line, pos) {
        Context::SuggestIfNotExists
    } else if column_type_ctx(line, pos, index, lines) {
        Context::SuggestColumnType
    } else if type_modifier_ctx(line, pos, index, lines) {
        Context::SuggestTypeModifier
    } else if fields_ctx(line, pos) {
        Context::SuggestFields
    } else if from_ctx(line, pos) {
        Context::SuggestFrom
    } else if table_ctx(line, pos) {
        Context::SuggestTable
    } else if graph_engine_ctx(line, pos) {
        Context::SuggestGraphEngineType
    } else if keywords_ctx(line, pos, index, lines) {
        Context::SuggestKeywords
    } else {
        Context::NoSuggestion
    }
}

/// Classifies the cursor position: evaluates the predicates of the fixed
/// rule list in order and returns the first match.
pub fn classify(line: &Vec<char>, pos: usize, index: usize, lines: &Vec<Vec<char>>) -> (r: Context)
    requires
        lines@.len() > 0,
        index < lines@.len(),
    ensures
        r == classify_spec(line@, pos as int, index as int, lines.deep_view()),
{
    let in_str = is_in_string_literal(line, pos);
    let use_ctx = should_suggest_keyspaces(line, pos);
    let graph_ctx = should_suggest_graph_engine_types(line, pos);
    if in_str && !use_ctx && !graph_ctx {
        return Context::InStringLiteral;
    }
    if use_ctx {
        return Context::SuggestKeyspace;
    }
    if let Some(kind) = drop_object_kind_exec(line, pos) {
        return Context::SuggestDropObjectName(kind);
    }
    if should_suggest_create_keywords(line, pos) {
        return Context::SuggestCreateKeyword;
    }
    if should_suggest_alter_keywords(line, pos) {
        return Context::SuggestAlterKeyword;
    }
    if should_suggest_drop_keywords(line, pos) {
        return Context::SuggestDropKeyword;
    }
    if should_suggest_if_not_exists(line, pos) {
        return Context::SuggestIfNotExists;
    }
    if should_suggest_types_completions(line, pos, index, lines) {
        return Context::SuggestColumnType;
    }
    if should_suggest_type_modifiers(line, pos, index, lines) {
        return Context::SuggestTypeModifier;
    }
    if should_suggest_fields(line, pos) {
        return Context::SuggestFields;
    }
    if should_suggest_from(line, pos) {
        return Context::SuggestFrom;
    }
    if should_suggest_table_completions(line, pos) {
        return Context::SuggestTable;
    }
    if graph_ctx {
        return Context::SuggestGraphEngineType;
    }
    if should_suggest_keywords(line, pos, index, lines) {
        return Context::SuggestKeywords;
    }
    Context::NoSuggestion
}

} // verus!
