//! The static CQL word tables: statement-starting keywords, column types,
//! and the droppable object kinds, with their membership tests.

use vstd::prelude::*;
use crate::text::{lower, remove_char, remove_char_exec, eq_str, starts_with_str, ws_tokens, to_lower};

verus! {

/// The lower-case keywords that begin a CQL statement.
pub open spec fn is_statement_kw(t: Seq<char>) -> bool {
    ||| t == "use"@
    ||| t == "select"@
    ||| t == "insert"@
    ||| t == "update"@
    ||| t == "delete"@
    ||| t == "create"@
    ||| t == "drop"@
    ||| t == "alter"@
    ||| t == "truncate"@
    ||| t == "grant"@
    ||| t == "revoke"@
    ||| t == "list"@
    ||| t == "begin"@
    ||| t == "apply"@
    ||| t == "commit"@
}

pub fn is_statement_kw_exec(t: &Vec<char>) -> (r: bool)
    ensures
        r == is_statement_kw(t@),
{
    eq_str(t, "use") || eq_str(t, "select") || eq_str(t, "insert") || eq_str(t, "update") || eq_str(
        t,
        "delete",
    ) || eq_str(t, "create") || eq_str(t, "drop") || eq_str(t, "alter") || eq_str(t, "truncate")
        || eq_str(t, "grant") || eq_str(t, "revoke") || eq_str(t, "list") || eq_str(t, "begin")
        || eq_str(t, "apply") || eq_str(t, "commit")
}

/// The lower-case names of the scalar CQL column types.
pub open spec fn is_cql_type_word(t: Seq<char>) -> bool {
    ||| t == "ascii"@
    ||| t == "bigint"@
    ||| t == "blob"@
    ||| t == "boolean"@
    ||| t == "counter"@
    ||| t == "date"@
    ||| t == "decimal"@
    ||| t == "double"@
    ||| t == "duration"@
    ||| t == "float"@
    ||| t == "inet"@
    ||| t == "int"@
    ||| t == "smallint"@
    ||| t == "text"@
    ||| t == "time"@
    ||| t == "timestamp"@
    ||| t == "timeuuid"@
    ||| t == "tinyint"@
    ||| t == "uuid"@
    ||| t == "varchar"@
    ||| t == "varint"@
}

pub fn is_cql_type_word_exec(t: &Vec<char>) -> (r: bool)
    ensures
        r == is_cql_type_word(t@),
{
    eq_str(t, "ascii") || eq_str(t, "bigint") || eq_str(t, "blob") || eq_str(t, "boolean")
        || eq_str(t, "counter") || eq_str(t, "date") || eq_str(t, "decimal") || eq_str(t, "double")
        || eq_str(t, "duration") || eq_str(t, "float") || eq_str(t, "inet") || eq_str(t, "int")
        || eq_str(t, "smallint") || eq_str(t, "text") || eq_str(t, "time") || eq_str(
        t,
        "timestamp",
    ) || eq_str(t, "timeuuid") || eq_str(t, "tinyint") || eq_str(t, "uuid") || eq_str(t, "varchar")
        || eq_str(t, "varint")
}

/// A token counts as naming a column type when, lower-cased and with commas
/// removed, it is a scalar type name, or when it begins like one of the
/// container types.
pub open spec fn token_is_type_like(w: Seq<char>) -> bool {
    ||| is_cql_type_word(remove_char(lower(w), ','))
    ||| crate::text::starts_with(w, "set"@)
    ||| crate::text::starts_with(w, "map"@)
    ||| crate::text::starts_with(w, "list"@)
    ||| crate::text::starts_with(w, "frozen"@)
}

pub fn token_is_type_like_exec(w: &Vec<char>) -> (r: bool)
    ensures
        r == token_is_type_like(w@),
{
    let lw = to_lower(w);
    let cleaned = remove_char_exec(&lw, ',');
    is_cql_type_word_exec(&cleaned) || starts_with_str(w, "set") || starts_with_str(w, "map")
        || starts_with_str(w, "list") || starts_with_str(w, "frozen")
}

/// Some whitespace-delimited token of the line names a column type.
pub open spec fn line_has_cql_type(s: Seq<char>) -> bool {
    exists|i: int| 0 <= i < ws_tokens(s).len() && token_is_type_like(ws_tokens(s)[i])
}

/// The seven object kinds a DROP statement can name.
#[derive(Clone, Copy, PartialEq, Eq, Structural, Debug)]
pub enum DropKind {
    Keyspace,
    Table,
    Aggregate,
    Function,
    Index,
    Type,
    View,
}

/// The lower-case keyword of a droppable object kind.
pub open spec fn drop_kind_word(k: DropKind) -> Seq<char> {
    match k {
        DropKind::Keyspace => "keyspace"@,
        DropKind::Table => "table"@,
        DropKind::Aggregate => "aggregate"@,
        DropKind::Function => "function"@,
        DropKind::Index => "index"@,
        DropKind::Type => "type"@,
        DropKind::View => "view"@,
    }
}

pub fn drop_kind_word_exec(k: DropKind) -> (r: Vec<char>)
    ensures
        r@ == drop_kind_word(k),
{
    match k {
        DropKind::Keyspace => crate::text::to_chars("keyspace"),
        DropKind::Table => crate::text::to_chars("table"),
        DropKind::Aggregate => crate::text::to_chars("aggregate"),
        DropKind::Function => crate::text::to_chars("function"),
        DropKind::Index => crate::text::to_chars("index"),
        DropKind::Type => crate::text::to_chars("type"),
        DropKind::View => crate::text::to_chars("view"),
    }
}

} // verus!
