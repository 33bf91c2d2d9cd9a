use gmock_sed::errors::GmockSedError;
use gmock_sed::extract::{lextract, rextract};

#[test]
fn test_lextract() {
    let demo = "(abc(df))(xy)";
    assert_eq!(lextract(demo), Ok("abc(df)"));
}

#[test]
fn test_lextract_unmatched() {
    assert_eq!(lextract("(abc(df)"), Err(GmockSedError::UnmatchedParenthesisError));
}

#[test]
fn test_rextract() {
    let demo = "(abc(df))(xy)";
    assert_eq!(rextract(demo), Ok("xy"));
}

#[test]
fn test_rextract_unmatched() {
    assert_eq!(rextract("xy)"), Err(GmockSedError::UnmatchedParenthesisError));
}

#[test]
fn test_lextract_empty_group() {
    assert_eq!(lextract("()"), Ok(""));
}

#[test]
fn test_lextract_deep_nesting() {
    assert_eq!(lextract("(a(b(c(d)e)f)g)h"), Ok("a(b(c(d)e)f)g"));
}

#[test]
fn test_rextract_skips_nested_groups() {
    assert_eq!(rextract("Foo, bool(SOME_MACRO(int))"), Ok("SOME_MACRO(int)"));
}
