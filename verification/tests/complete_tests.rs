use cql_lsp::complete::{
    drop_keyspace_entries, drop_object_entries, field_completion_entries, field_query_plan,
    get_graph_engine_types, graph_engine_plain_entries, handle_alter_keywords,
    handle_create_keywords, handle_drop_keywords, handle_from_completion, handle_if_not_exists,
    handle_keywords_completion, handle_type_modifiers_completion, handle_types_completion,
    keyspace_plain_entries, native_function_entries, quoted_value_entries, table_completion_entries,
    CompletionEntry, EntryText, FieldQuery,
};
use cql_lsp::schema::{Column, Table};

fn cv(s: &str) -> Vec<char> {
    s.chars().collect()
}

fn doc(lines: &[&str]) -> Vec<Vec<char>> {
    lines.iter().map(|l| cv(l)).collect()
}

fn col(ks: &str, tb: &str, co: &str, ty: &str) -> Column {
    Column {
        keyspace_name: ks.to_string(),
        table_name: tb.to_string(),
        column_name: co.to_string(),
        column_type: ty.to_string(),
    }
}

fn labels(entries: &[CompletionEntry]) -> Vec<String> {
    entries.iter().map(|e| e.label.clone()).collect()
}

#[test]
fn drop_table_completion_offers_terminated_edits() {
    // DROP TABLE with tables ks1.t1 and ks2.t2: the entries replace from
    // the position after "TABLE " to the line end with "ks1.t1;" / "ks2.t2;"
    let line = cv("DROP TABLE ");
    let objs = vec![
        ("ks1".to_string(), "t1".to_string()),
        ("ks2".to_string(), "t2".to_string()),
    ];
    let entries = drop_object_entries(&line, 11, &objs);
    assert_eq!(entries.len(), 2);
    assert_eq!(entries[0].label, "ks1.t1");
    assert_eq!(entries[1].label, "ks2.t2");
    match &entries[0].text {
        EntryText::Edit(range, text) => {
            assert_eq!(range.start, 11);
            assert_eq!(range.end, 11);
            assert_eq!(text, "ks1.t1;");
        }
        _ => panic!("expected a replacement edit"),
    }
    match &entries[1].text {
        EntryText::Edit(_, text) => assert_eq!(text, "ks2.t2;"),
        _ => panic!("expected a replacement edit"),
    }
}

#[test]
fn drop_keyspace_completion_offers_terminated_edits() {
    let line = cv("DROP KEYSPACE ");
    let names = vec!["alpha".to_string()];
    let entries = drop_keyspace_entries(&line, 14, &names);
    assert_eq!(entries.len(), 1);
    match &entries[0].text {
        EntryText::Edit(range, text) => {
            assert_eq!(range.start, 14);
            assert_eq!(text, "alpha;");
        }
        _ => panic!("expected a replacement edit"),
    }
}

#[test]
fn field_completion_skips_columns_already_on_line() {
    // with columns id and name, only name is offered: id already stands on
    // the line
    let line = cv("SELECT id FROM ks.tbl");
    let cols = vec![col("ks", "tbl", "id", "int"), col("ks", "tbl", "name", "text")];
    let scope = "ks".to_string();
    let entries = field_completion_entries(&line, 9, &cols, Some(&scope));
    let ls = labels(&entries);
    assert!(ls.iter().any(|l| l.starts_with("name |")));
    assert!(!ls.iter().any(|l| l.starts_with("id |")));
}

#[test]
fn field_completion_rewrites_statement_when_from_is_open() {
    let line = cv("SELECT id ");
    let cols = vec![col("ks", "tbl", "name", "text")];
    let scope = "ks".to_string();
    let entries = field_completion_entries(&line, 10, &cols, Some(&scope));
    match &entries[0].text {
        EntryText::Edit(range, text) => {
            // replaces from just after the space before the cursor to the
            // line's end; the table is unqualified under the active scope
            assert_eq!(range.start, 10);
            assert_eq!(range.end, 10);
            assert_eq!(text, "name, FROM tbl;");
        }
        _ => panic!("expected a replacement edit"),
    }
}

#[test]
fn field_completion_qualifies_foreign_tables() {
    let line = cv("SELECT x ");
    let cols = vec![col("other", "tbl", "name", "text")];
    let scope = "ks".to_string();
    let entries = field_completion_entries(&line, 9, &cols, Some(&scope));
    match &entries[0].text {
        EntryText::Edit(_, text) => assert_eq!(text, "name, FROM other.tbl;"),
        _ => panic!("expected a replacement edit"),
    }
}

#[test]
fn field_completion_with_no_columns_still_answers() {
    // a failing schema call degrades to an empty column list: the
    // completion still returns the static function names
    let line = cv("SELECT ");
    let cols: Vec<Column> = Vec::new();
    let entries = field_completion_entries(&line, 7, &cols, None);
    assert_eq!(entries.len(), native_function_entries().len());
    assert!(labels(&entries).contains(&"count".to_string()));
}

#[test]
fn field_query_plan_prefers_qualified_token() {
    let lines = doc(&["USE \"a\";", "SELECT id FROM ks.tbl"]);
    match field_query_plan(&cv("SELECT id FROM ks.tbl"), &lines, 1) {
        FieldQuery::Hard(ks, tb) => {
            assert_eq!(ks, "ks");
            assert_eq!(tb, "tbl");
        }
        _ => panic!("expected the qualified pair"),
    }
}

#[test]
fn field_query_plan_uses_scope_for_bare_table() {
    let lines = doc(&["USE \"a\";", "SELECT id FROM users;"]);
    match field_query_plan(&cv("SELECT id FROM users;"), &lines, 1) {
        FieldQuery::Hard(ks, tb) => {
            assert_eq!(ks, "a");
            assert_eq!(tb, "users");
        }
        _ => panic!("expected the scoped pair"),
    }
}

#[test]
fn field_query_plan_falls_back_to_global() {
    let lines = doc(&["SELECT id "]);
    assert!(matches!(
        field_query_plan(&cv("SELECT id "), &lines, 0),
        FieldQuery::Global
    ));
}

#[test]
fn keyspace_completion_inside_string_filters_by_prefix() {
    let line = cv("USE \"my");
    let names = vec!["mydata".to_string(), "other".to_string()];
    let entries = quoted_value_entries(&line, 7, &names, true);
    assert_eq!(entries.len(), 1);
    assert_eq!(entries[0].label, "mydata");
    match &entries[0].text {
        EntryText::Insert(text) => assert_eq!(text, "mydata\";"),
        _ => panic!("expected an insertion"),
    }
}

#[test]
fn keyspace_completion_inside_closed_string_replaces_word() {
    let line = cv("USE \"my\"");
    let names = vec!["mydata".to_string()];
    let entries = quoted_value_entries(&line, 7, &names, true);
    assert_eq!(entries.len(), 1);
    match &entries[0].text {
        EntryText::Edit(range, text) => {
            // replaces from just after the opening quote, past the closing
            // quote, appending quote and terminator
            assert_eq!(range.start, 5);
            assert_eq!(range.end, 8);
            assert_eq!(text, "mydata\";");
        }
        _ => panic!("expected a replacement edit"),
    }
}

#[test]
fn keyspace_completion_outside_string_quotes_the_name() {
    let line = cv("USE ");
    let names = vec!["ks".to_string()];
    let entries = keyspace_plain_entries(&line, 4, &names);
    assert_eq!(entries.len(), 1);
    match &entries[0].text {
        EntryText::Edit(range, text) => {
            assert_eq!(range.start, 4);
            assert_eq!(range.end, 4);
            assert_eq!(text, "\"ks\";");
        }
        _ => panic!("expected a replacement edit"),
    }
}

#[test]
fn graph_engine_types_are_core_and_classic() {
    assert_eq!(get_graph_engine_types(), vec!["Core", "Classic"]);
    let entries = graph_engine_plain_entries();
    assert_eq!(labels(&entries), vec!["Core", "Classic"]);
    match &entries[0].text {
        EntryText::Insert(text) => assert_eq!(text, "'Core'"),
        _ => panic!("expected an insertion"),
    }
}

#[test]
fn table_completion_lists_scoped_then_global() {
    let scoped = vec![Table { keyspace_name: "a".to_string(), table_name: "t1".to_string() }];
    let global = vec![Table { keyspace_name: "b".to_string(), table_name: "t2".to_string() }];
    let entries = table_completion_entries(&scoped, &global);
    assert_eq!(labels(&entries), vec!["t1", "b.t2"]);
}

#[test]
fn table_united_joins_with_a_dot() {
    let t = Table { keyspace_name: "ks".to_string(), table_name: "tbl".to_string() };
    assert_eq!(t.united(), "ks.tbl");
}

#[test]
fn static_keyword_tables_have_expected_shape() {
    assert_eq!(handle_keywords_completion().len(), 40);
    assert_eq!(handle_create_keywords().len(), 40);
    assert_eq!(handle_alter_keywords().len(), 24);
    assert_eq!(handle_drop_keywords().len(), 20);
    assert_eq!(handle_types_completion().len(), 42);
    assert_eq!(handle_from_completion().len(), 2);
    assert_eq!(handle_if_not_exists().len(), 2);
    let create = handle_create_keywords();
    assert_eq!(create[0].label, "AGGREGATE");
    match &create[0].text {
        EntryText::Insert(text) => assert_eq!(text, "AGGREGATE $0"),
        _ => panic!("expected an insertion"),
    }
}

#[test]
fn type_modifiers_depend_on_primary() {
    let with_primary = handle_type_modifiers_completion(&cv("name text PRIMARY "));
    assert_eq!(labels(&with_primary), vec!["KEY", "key"]);
    let without = handle_type_modifiers_completion(&cv("name text "));
    assert_eq!(labels(&without), vec!["PRIMARY KEY", "primary key", "STATIC", "static"]);
}
