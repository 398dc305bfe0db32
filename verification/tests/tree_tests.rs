//! Tests for the language-independent tree query layer.

use spec_extract::NodeHelper;

#[test]
fn test_clean_comment_line() {
    assert_eq!(NodeHelper::clean_comment("// Hello world"), "Hello world");
    assert_eq!(NodeHelper::clean_comment("/// Doc comment"), "Doc comment");
}

#[test]
fn test_clean_comment_python() {
    assert_eq!(NodeHelper::clean_comment("# Python comment"), "Python comment");
}

#[test]
fn test_clean_comment_block() {
    assert_eq!(NodeHelper::clean_comment("/* boxed */"), "boxed");
    assert_eq!(NodeHelper::clean_comment("/* one\n * two\n */"), "one\ntwo");
}

#[test]
fn test_clean_comment_drops_empty_lines() {
    assert_eq!(NodeHelper::clean_comment("// first\n//\n// third"), "first\nthird");
}
