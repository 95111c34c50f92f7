use cql_lsp::scan::{
    is_in_string_literal, is_line_in_multiline_comment, is_line_inside_init_args,
    is_line_inside_selectors, is_multi_line_comment_clause, line_contains_cql_kw,
    line_contains_cql_type,
};

fn cv(s: &str) -> Vec<char> {
    s.chars().collect()
}

fn doc(lines: &[&str]) -> Vec<Vec<char>> {
    lines.iter().map(|l| cv(l)).collect()
}

#[test]
fn string_literal_inside_double_quotes() {
    let line = cv("USE \"mykeyspace\";");
    assert!(is_in_string_literal(&line, 6));
    assert!(!is_in_string_literal(&line, 4));
    assert!(!is_in_string_literal(&line, 17));
}

#[test]
fn string_literal_inside_single_quotes() {
    let line = cv("x = 'abc' y");
    assert!(is_in_string_literal(&line, 6));
    assert!(!is_in_string_literal(&line, 10));
}

#[test]
fn string_literal_escape_is_consumed() {
    // the escaped quote does not close the literal
    let line = cv("'a\\'b'");
    assert!(is_in_string_literal(&line, 4));
}

#[test]
fn string_literal_position_past_line_end() {
    let line = cv("'abc");
    assert!(!is_in_string_literal(&line, 99));
}

#[test]
fn string_literal_invariant_under_escaped_insertion() {
    // inserting a fully escaped pair earlier in the line keeps the
    // classification of the shifted position
    let base = cv("x 'ab");
    let with_pair: Vec<char> = cv("\\qx 'ab");
    for pos in 0..=base.len() {
        assert_eq!(
            is_in_string_literal(&base, pos),
            is_in_string_literal(&with_pair, pos + 2)
        );
    }
}

#[test]
fn multiline_comment_clause_detection() {
    assert!(is_multi_line_comment_clause(&cv("/* start")));
    assert!(is_multi_line_comment_clause(&cv("end */")));
    assert!(!is_multi_line_comment_clause(&cv("select *")));
}

#[test]
fn line_inside_multiline_comment() {
    let lines = doc(&["/*", "inside", "*/"]);
    assert!(is_line_in_multiline_comment(&cv("inside"), 1, &lines));
    assert!(!is_line_in_multiline_comment(&cv("/*"), 0, &lines));
    assert!(!is_line_in_multiline_comment(&cv("*/"), 2, &lines));
}

#[test]
fn line_not_in_comment_when_closer_above() {
    let lines = doc(&["*/", "text", "*/"]);
    assert!(!is_line_in_multiline_comment(&cv("text"), 1, &lines));
}

#[test]
fn selectors_between_select_and_from() {
    let lines = doc(&["SELECT", "name,", "age", "FROM users;"]);
    assert!(is_line_inside_selectors(&cv("name,"), 1, &lines));
    assert!(is_line_inside_selectors(&cv("age"), 2, &lines));
    assert!(!is_line_inside_selectors(&cv("SELECT"), 0, &lines));
    assert!(!is_line_inside_selectors(&cv("FROM users;"), 3, &lines));
}

#[test]
fn selectors_stop_at_terminator() {
    let lines = doc(&["SELECT", "name,", ";", "FROM users;"]);
    assert!(!is_line_inside_selectors(&cv("name,"), 1, &lines));
}

#[test]
fn init_args_inside_brackets() {
    let lines = doc(&["CREATE TABLE t (", "id int,", "name text", ");"]);
    assert!(is_line_inside_init_args(&cv("id int,"), 1, &lines));
    assert!(is_line_inside_init_args(&cv("name text"), 2, &lines));
    assert!(!is_line_inside_init_args(&cv("CREATE TABLE t ("), 0, &lines));
}

#[test]
fn init_args_rejects_bracket_lines() {
    let lines = doc(&["CREATE TABLE t (", "x (", "name text", ");"]);
    assert!(!is_line_inside_init_args(&cv("x ("), 1, &lines));
}

#[test]
fn keyword_line_detection() {
    assert!(line_contains_cql_kw(&cv("SELECT * FROM t;")));
    assert!(line_contains_cql_kw(&cv("  use \"k\";")));
    assert!(line_contains_cql_kw(&cv("create table x")));
    assert!(!line_contains_cql_kw(&cv("name text,")));
    assert!(!line_contains_cql_kw(&cv("")));
}

#[test]
fn type_word_detection() {
    assert!(line_contains_cql_type(&cv("name TEXT,")));
    assert!(line_contains_cql_type(&cv("tags set<text>")));
    assert!(line_contains_cql_type(&cv("m frozen<tuple<int>>")));
    assert!(!line_contains_cql_type(&cv("name something,")));
}
