use gull::docs::{format_docstring, make_comment_prefix, make_spaces, CommentStyle};
use gull::imports::{str_lt, ImportSet};

#[test]
fn register_keeps_statements_sorted_and_deduplicated() {
    let mut set = ImportSet::new();
    set.register("use b;");
    set.register("use a;");
    set.register("use b;");
    set.register("use c;");
    set.register("use a;");
    assert_eq!(set.count(), 3);
    assert_eq!(set.stmt_at(0), "use a;");
    assert_eq!(set.stmt_at(1), "use b;");
    assert_eq!(set.stmt_at(2), "use c;");
}

#[test]
fn registration_order_does_not_matter() {
    let mut forward = ImportSet::new();
    forward.register("alpha");
    forward.register("beta");
    let mut backward = ImportSet::new();
    backward.register("beta");
    backward.register("alpha");
    assert_eq!(forward.count(), backward.count());
    assert_eq!(forward.stmt_at(0), backward.stmt_at(0));
    assert_eq!(forward.stmt_at(1), backward.stmt_at(1));
}

#[test]
fn str_lt_is_lexicographic() {
    assert!(str_lt("abc", "abd"));
    assert!(!str_lt("abd", "abc"));
    assert!(str_lt("ab", "abc"));
    assert!(!str_lt("abc", "ab"));
    assert!(!str_lt("abc", "abc"));
    assert!(str_lt("", "a"));
    assert!(!str_lt("", ""));
    assert!(str_lt(
        "use std::collections::BTreeMap;",
        "use std::collections::BTreeSet;"
    ));
}

#[test]
fn absent_or_empty_docs_format_to_nothing() {
    assert!(format_docstring(&None, CommentStyle::TripleSlash, 0).is_none());
    assert!(format_docstring(&Some(String::new()), CommentStyle::TripleSlash, 0).is_none());
}

#[test]
fn single_line_docs_get_one_marker() {
    let out = format_docstring(&Some("hello".to_string()), CommentStyle::TripleSlash, 0);
    assert_eq!(out.unwrap(), "/// hello");
    let out = format_docstring(&Some("hello".to_string()), CommentStyle::DoubleSlash, 0);
    assert_eq!(out.unwrap(), "// hello");
}

#[test]
fn multi_line_docs_prefix_every_line_at_the_indent() {
    let out = format_docstring(
        &Some("first\nsecond".to_string()),
        CommentStyle::TripleSlash,
        4,
    );
    assert_eq!(out.unwrap(), "    /// first\n    /// second");
}

#[test]
fn formatted_docs_have_no_trailing_line_break() {
    let out = format_docstring(&Some("text".to_string()), CommentStyle::TripleSlash, 0).unwrap();
    assert!(!out.ends_with('\n'));
}

#[test]
fn spaces_and_prefix_builders_match_their_inputs() {
    assert_eq!(make_spaces(0), "");
    assert_eq!(make_spaces(4), "    ");
    assert_eq!(make_comment_prefix(CommentStyle::TripleSlash, 2), "  /// ");
    assert_eq!(make_comment_prefix(CommentStyle::DoubleSlash, 0), "// ");
}
