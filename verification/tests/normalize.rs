use syllabus_tracker::normalize::normalize_sql;

#[test]
fn comment_with_newline_is_stripped() {
    assert_eq!(
        normalize_sql("CREATE TABLE t ( -- note\n  a INTEGER )"),
        "CREATE TABLE t(a INTEGER)"
    );
}

#[test]
fn trailing_comment_without_newline_is_kept() {
    assert_eq!(normalize_sql("x -- c"), "x -- c");
}

#[test]
fn whitespace_runs_collapse_to_one_space() {
    assert_eq!(
        normalize_sql("  CREATE  TABLE\tt\n( a ,\n b )  "),
        "CREATE TABLE t(a,b)"
    );
}

#[test]
fn spaces_around_punctuation_are_removed() {
    assert_eq!(normalize_sql("a  ,  b"), "a,b");
    assert_eq!(normalize_sql("f ( x )"), "f(x)");
}

#[test]
fn quotes_around_words_are_stripped() {
    assert_eq!(normalize_sql("\"users\""), "users");
    assert_eq!(
        normalize_sql("CREATE TABLE \"quoted\" (id INTEGER)"),
        "CREATE TABLE quoted(id INTEGER)"
    );
}

#[test]
fn quotes_around_non_words_are_kept() {
    assert_eq!(normalize_sql("\"a b\""), "\"a b\"");
    assert_eq!(normalize_sql("x\"\"y"), "x\"\"y");
}

#[test]
fn equivalent_fragments_normalize_equal() {
    let a = "CREATE TABLE users (\n  id INTEGER PRIMARY KEY, -- key\n  name TEXT\n);";
    let b = "CREATE TABLE \"users\"(id INTEGER PRIMARY KEY,name TEXT);";
    assert_eq!(normalize_sql(a), normalize_sql(b));
}

#[test]
fn different_fragments_stay_different() {
    let a = "CREATE TABLE users (id INTEGER)";
    let b = "CREATE TABLE users (id TEXT)";
    assert_ne!(normalize_sql(a), normalize_sql(b));
}

#[test]
fn empty_input_normalizes_empty() {
    assert_eq!(normalize_sql(""), "");
    assert_eq!(normalize_sql("   \n\t  "), "");
}
