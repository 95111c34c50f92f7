use cql_lsp::format::{
    add_spacing_after_comma, add_spacing_new_lines, add_tabs_to_args, apply_semi_colon,
    fix_duplicate_semi_colon, fix_new_lines, fix_spacing, fix_string_literals_in_line, format_file,
    format_lines, remove_leading_spaces_wildcards, remove_tailing_spaces_wildcards,
};

fn cv(s: &str) -> Vec<char> {
    s.chars().collect()
}

fn vs(v: &Vec<char>) -> String {
    v.iter().collect()
}

fn doc(lines: &[&str]) -> Vec<Vec<char>> {
    lines.iter().map(|l| cv(l)).collect()
}

fn strings(lines: &Vec<Vec<char>>) -> Vec<String> {
    lines.iter().map(|l| vs(l)).collect()
}

#[test]
fn spacing_collapses_runs() {
    assert_eq!(vs(&fix_spacing(&cv("a   b  c"))), "a b c");
    assert_eq!(vs(&fix_spacing(&cv("  x  "))), " x ");
}

#[test]
fn duplicate_semicolons_collapse() {
    assert_eq!(vs(&fix_duplicate_semi_colon(&cv("a;;;b;;"))), "a;b;");
}

#[test]
fn space_before_punctuation_is_removed() {
    assert_eq!(vs(&remove_leading_spaces_wildcards(&cv("a ;"))), "a;");
    assert_eq!(vs(&remove_leading_spaces_wildcards(&cv("f(x ) , y"))), "f(x), y");
}

#[test]
fn space_after_open_bracket_is_removed() {
    assert_eq!(vs(&remove_tailing_spaces_wildcards(&cv("( a < b"))), "(a <b");
}

#[test]
fn string_literal_interiors_are_trimmed() {
    assert_eq!(vs(&fix_string_literals_in_line(&cv("USE \"  ks  \";"))), "USE \"ks\";");
    assert_eq!(vs(&fix_string_literals_in_line(&cv("x ' a ' y"))), "x 'a' y");
    // an unmatched quote leaves the rest alone
    assert_eq!(vs(&fix_string_literals_in_line(&cv("x \" a"))), "x \" a");
}

#[test]
fn blank_after_blank_is_dropped() {
    let out = fix_new_lines(&doc(&["a", "", "", "b"]));
    assert_eq!(strings(&out), vec!["a", "", "b"]);
}

#[test]
fn blank_after_open_bracket_is_dropped() {
    let out = fix_new_lines(&doc(&["CREATE TABLE t (", "", "x int", ");"]));
    assert_eq!(strings(&out), vec!["CREATE TABLE t (", "x int", ");"]);
}

#[test]
fn terminator_added_before_keyword_line() {
    // a statement line followed by a line starting with a statement
    // keyword receives its terminator
    let out = apply_semi_colon(&doc(&["USE \"a\"", "SELECT x FROM t;"]));
    assert_eq!(strings(&out), vec!["USE \"a\";", "SELECT x FROM t;"]);
}

#[test]
fn terminator_added_before_blank_line_and_at_end() {
    let out = apply_semi_colon(&doc(&["USE \"a\"", "", "TRUNCATE t"]));
    assert_eq!(strings(&out), vec!["USE \"a\";", "", "TRUNCATE t;"]);
}

#[test]
fn terminator_not_added_inside_open_statement() {
    let out = apply_semi_colon(&doc(&["SELECT x", "FROM t;"]));
    // "FROM t;" does not begin a statement, so the first line stays open
    assert_eq!(strings(&out), vec!["SELECT x", "FROM t;"]);
}

#[test]
fn blank_line_inserted_after_terminator() {
    let out = add_spacing_new_lines(&doc(&["USE \"a\";", "SELECT x FROM t;"]));
    assert_eq!(strings(&out), vec!["USE \"a\";", "", "SELECT x FROM t;"]);
}

#[test]
fn space_follows_each_comma() {
    let out = add_spacing_after_comma(&doc(&["a,b, c,d"]));
    assert_eq!(strings(&out), vec!["a, b, c, d"]);
}

#[test]
fn argument_block_lines_are_indented() {
    let out = add_tabs_to_args(&doc(&["CREATE TABLE t (", "id int,", ");"]));
    assert_eq!(strings(&out), vec!["CREATE TABLE t (", "    id int,", ");"]);
}

#[test]
fn format_normalizes_a_document() {
    let out = format_lines(&doc(&["  USE   \"  ks \"", "SELECT a,b  FROM t"]));
    assert_eq!(
        strings(&out),
        vec!["USE \"ks\";", "", "SELECT a, b FROM t;"]
    );
}

#[test]
fn format_is_idempotent_on_samples() {
    let samples: Vec<Vec<&str>> = vec![
        vec!["  USE   \"  ks \"", "SELECT a,b  FROM t"],
        vec!["CREATE TABLE t (", "id int,", "name text", ")"],
        vec!["a ;;", "", "", "b"],
        vec!["select x", "from t ;"],
    ];
    for sample in samples {
        let once = format_lines(&doc(&sample));
        let twice = format_lines(&once);
        assert_eq!(strings(&once), strings(&twice));
    }
}

#[test]
fn separated_terminators_join_then_collapse() {
    // terminator deduplication runs before punctuation spacing, so removing
    // the space between two terminators joins them, and only the next run
    // collapses the pair: the pipeline is not idempotent on such lines
    let once = format_lines(&doc(&["a; ;"]));
    assert_eq!(strings(&once), vec!["a;;"]);
    let twice = format_lines(&once);
    assert_eq!(strings(&twice), vec!["a;"]);
}

#[test]
fn format_file_emits_one_edit_per_line() {
    let lines = doc(&["USE \"a\"", "TRUNCATE t"]);
    let edits = format_file(&lines);
    // three output lines (a blank was inserted) and no trailing deletion
    assert_eq!(edits.len(), 3);
    assert_eq!(edits[0].start_line, 0);
    assert_eq!(edits[0].start_char, 0);
    assert_eq!(edits[0].end_char, 7);
    assert_eq!(edits[0].new_text, "USE \"a\";");
    assert_eq!(edits[1].new_text, "");
    assert_eq!(edits[2].new_text, "TRUNCATE t;");
}

#[test]
fn format_file_trailing_deletion_when_shorter() {
    let lines = doc(&["a;;", "", "", ""]);
    let edits = format_file(&lines);
    // the formatted document is shorter, so the last edit deletes the rest
    let last = &edits[edits.len() - 1];
    assert_eq!(last.new_text, "");
    assert_eq!(last.end_line, 3);
}
