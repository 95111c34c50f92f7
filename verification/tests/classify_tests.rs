use cql_lsp::classify::{classify, should_suggest_fields, Context};
use cql_lsp::keywords::DropKind;

fn cv(s: &str) -> Vec<char> {
    s.chars().collect()
}

fn doc(lines: &[&str]) -> Vec<Vec<char>> {
    lines.iter().map(|l| cv(l)).collect()
}

fn classify_line(line: &str, pos: usize) -> Context {
    let l = cv(line);
    let lines = doc(&[line]);
    classify(&l, pos, 0, &lines)
}

#[test]
fn select_with_trailing_comma_resolves_to_fields() {
    // the trailing comma satisfies the selector-continuation rule, so the
    // context is SuggestFields, not SuggestKeywords
    let ctx = classify_line("SELECT a, b ", 12);
    assert_eq!(ctx, Context::SuggestFields);
}

#[test]
fn comma_continuation_requires_token_final_comma() {
    // a comma buried inside a token does not continue the selector list:
    // the relevant token must end in the comma
    let line = cv("select x a,b ");
    assert!(!should_suggest_fields(&line, 13));
    assert_eq!(classify_line("select x a,b ", 13), Context::SuggestKeywords);
}

#[test]
fn trailing_comma_token_continues_selectors() {
    assert!(should_suggest_fields(&cv("select a, "), 10));
    assert!(should_suggest_fields(&cv("select na"), 9));
}

#[test]
fn select_alone_resolves_to_fields() {
    assert_eq!(classify_line("SELECT ", 7), Context::SuggestFields);
}

#[test]
fn select_complete_token_without_comma_resolves_to_from() {
    assert_eq!(classify_line("SELECT a ", 9), Context::SuggestFrom);
}

#[test]
fn use_line_resolves_to_keyspace() {
    assert_eq!(classify_line("USE ", 4), Context::SuggestKeyspace);
    assert_eq!(classify_line("use \"my", 7), Context::SuggestKeyspace);
}

#[test]
fn drop_table_resolves_to_drop_object() {
    assert_eq!(
        classify_line("DROP TABLE ", 11),
        Context::SuggestDropObjectName(DropKind::Table)
    );
}

#[test]
fn drop_keyspace_resolves_to_drop_object() {
    assert_eq!(
        classify_line("DROP KEYSPACE x", 15),
        Context::SuggestDropObjectName(DropKind::Keyspace)
    );
}

#[test]
fn create_verb_resolves_to_create_keyword() {
    assert_eq!(classify_line("CREATE ", 7), Context::SuggestCreateKeyword);
    assert_eq!(classify_line("ALTER ", 6), Context::SuggestAlterKeyword);
    assert_eq!(classify_line("DROP ", 5), Context::SuggestDropKeyword);
}

#[test]
fn create_table_name_position_offers_if_not_exists() {
    assert_eq!(classify_line("CREATE TABLE x", 14), Context::SuggestIfNotExists);
}

#[test]
fn inside_create_table_offers_column_type() {
    let lines = doc(&["CREATE TABLE t (", "name ", ");"]);
    let ctx = classify(&cv("name "), 5, 1, &lines);
    assert_eq!(ctx, Context::SuggestColumnType);
}

#[test]
fn inside_create_table_offers_type_modifier() {
    let lines = doc(&["CREATE TABLE t (", "name text ", ");"]);
    let ctx = classify(&cv("name text "), 10, 1, &lines);
    assert_eq!(ctx, Context::SuggestTypeModifier);
}

#[test]
fn from_position_resolves_to_table() {
    assert_eq!(classify_line("SELECT a FROM ", 14), Context::SuggestTable);
    assert_eq!(classify_line("INSERT INTO ", 12), Context::SuggestTable);
    assert_eq!(classify_line("UPDATE ", 7), Context::SuggestTable);
}

#[test]
fn graph_engine_assignment_resolves_to_graph_type() {
    assert_eq!(
        classify_line("graph_engine = ", 15),
        Context::SuggestGraphEngineType
    );
}

#[test]
fn string_interior_resolves_to_in_string_literal() {
    assert_eq!(classify_line("SELECT 'ab", 9), Context::InStringLiteral);
}

#[test]
fn plain_start_resolves_to_keywords() {
    assert_eq!(classify_line("", 0), Context::SuggestKeywords);
    assert_eq!(classify_line("SEL", 3), Context::SuggestKeywords);
}

#[test]
fn after_terminator_resolves_to_nothing() {
    assert_eq!(classify_line("TRUNCATE t; x", 13), Context::NoSuggestion);
}

#[test]
fn position_beyond_line_resolves_to_nothing() {
    // an out-of-range cursor matches no rule but the keyword fallback
    // rejects it too
    assert_eq!(classify_line("ab", 50), Context::NoSuggestion);
}
