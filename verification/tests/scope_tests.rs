use cql_lsp::scope::{
    from_target, is_use_keyspace_line, latest_keyspace, should_field_be_edit, FromTarget,
};

fn cv(s: &str) -> Vec<char> {
    s.chars().collect()
}

fn doc(lines: &[&str]) -> Vec<Vec<char>> {
    lines.iter().map(|l| cv(l)).collect()
}

#[test]
fn use_line_shape() {
    assert!(is_use_keyspace_line(&cv("USE \"abc\";")));
    assert!(is_use_keyspace_line(&cv("use 'abc';")));
    assert!(is_use_keyspace_line(&cv("  use \"a\";  ")));
    assert!(!is_use_keyspace_line(&cv("USE abc;")));
    assert!(!is_use_keyspace_line(&cv("use \"abc\"")));
    assert!(!is_use_keyspace_line(&cv("use \"abc';")));
    assert!(!is_use_keyspace_line(&cv("user \"abc\";")));
}

#[test]
fn latest_use_declaration_wins() {
    // with the cursor on the third line, the most recent USE declares "b"
    let lines = doc(&["USE \"a\";", "USE \"b\";", "SELECT x "]);
    let ks = latest_keyspace(&lines, 2);
    assert_eq!(ks.as_deref(), Some("b"));
}

#[test]
fn no_use_line_gives_no_scope() {
    let lines = doc(&["SELECT x ", "FROM t;"]);
    assert!(latest_keyspace(&lines, 1).is_none());
}

#[test]
fn use_on_cursor_line_does_not_count() {
    let lines = doc(&["USE \"a\";", "SELECT x "]);
    assert!(latest_keyspace(&lines, 0).is_none());
    assert_eq!(latest_keyspace(&lines, 1).as_deref(), Some("a"));
}

#[test]
fn cursor_past_document_sees_whole_document() {
    let lines = doc(&["USE \"a\";"]);
    assert_eq!(latest_keyspace(&lines, 10).as_deref(), Some("a"));
}

#[test]
fn qualified_from_token() {
    match from_target(&cv("SELECT id FROM ks.tbl")) {
        FromTarget::Qualified(ks, tb) => {
            assert_eq!(ks, "ks");
            assert_eq!(tb, "tbl");
        }
        _ => panic!("expected a qualified target"),
    }
}

#[test]
fn bare_from_token() {
    match from_target(&cv("SELECT id FROM users;")) {
        FromTarget::Bare(tb) => assert_eq!(tb, "users"),
        _ => panic!("expected a bare target"),
    }
}

#[test]
fn from_alone_gives_no_target() {
    assert!(matches!(from_target(&cv("SELECT id FROM")), FromTarget::NoTarget));
    assert!(matches!(from_target(&cv("SELECT id")), FromTarget::NoTarget));
}

#[test]
fn field_edit_decision() {
    // no FROM yet: the completion may rewrite the whole statement
    assert!(should_field_be_edit(&cv("SELECT id ")));
    // FROM followed by a table: only plain inserts
    assert!(!should_field_be_edit(&cv("SELECT id FROM users")));
    // FROM followed by nothing alphabetic: rewrite is still allowed
    assert!(should_field_be_edit(&cv("SELECT id FROM ;")));
}
