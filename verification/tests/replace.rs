use gmock_sed::args::Args;
use gmock_sed::{replace, search, ReplaceMode, SearchMode};

#[test]
fn test_rewrite_simple_invocation() {
    let r = replace("MOCK_METHOD1(Foo, bool(int))", ReplaceMode::MultiLine, false);
    assert_eq!(r.suggestion.as_deref(), Some("MOCK_METHOD(bool, Foo, (int))"));
    assert_eq!(r.total, 1);
    assert!(r.errors.is_empty());
}

#[test]
fn test_rewrite_const_calltype_invocation() {
    let r = replace(
        "MOCK_CONST_METHOD1_WITH_CALLTYPE(STDMETHODCALLTYPE, Foo, bool(int))",
        ReplaceMode::MultiLine,
        false,
    );
    assert_eq!(
        r.suggestion.as_deref(),
        Some("MOCK_METHOD(bool, Foo, (int), (const, Calltype(STDMETHODCALLTYPE)))")
    );
    assert_eq!(r.total, 1);
    assert!(r.errors.is_empty());
}

#[test]
fn test_rewrite_void_argument_list() {
    let r = replace("MOCK_METHOD0(Foo, bool(void))", ReplaceMode::MultiLine, false);
    assert_eq!(r.suggestion.as_deref(), Some("MOCK_METHOD(bool, Foo, ())"));
}

#[test]
fn test_rewrite_template_return_type() {
    let r = replace(
        "MOCK_METHOD0(GetPair, std::pair<bool, int>());",
        ReplaceMode::MultiLine,
        false,
    );
    assert_eq!(
        r.suggestion.as_deref(),
        Some("MOCK_METHOD((std::pair<bool, int>), GetPair, ());")
    );
}

#[test]
fn test_rewrite_no_heads() {
    let r = replace("int main() { return 0; }", ReplaceMode::MultiLine, false);
    assert!(r.suggestion.is_none());
    assert_eq!(r.total, 0);
    assert!(r.errors.is_empty());
}

#[test]
fn test_rewrite_keeps_malformed_span() {
    let src = "MOCK_METHOD1(Good, bool(int));\nMOCK_METHOD1(Bad, bool(int);\n";
    let r = replace(src, ReplaceMode::MultiLine, false);
    let out = r.suggestion.unwrap();
    assert!(out.starts_with("MOCK_METHOD(bool, Good, (int));"));
    assert!(out.contains("MOCK_METHOD1(Bad, bool(int);"));
    assert_eq!(r.total, 2);
    assert_eq!(r.errors.len(), 1);
}

#[test]
fn test_rewrite_template_argument_protection() {
    let r = replace(
        "MOCK_METHOD2(Foo, void(std::map<int, double>, bool))",
        ReplaceMode::MultiLine,
        false,
    );
    assert_eq!(
        r.suggestion.as_deref(),
        Some("MOCK_METHOD(void, Foo, ((std::map<int, double>), bool))")
    );
}

#[test]
fn test_args_comma_protection() {
    let a = Args { args: String::from("std::map<int, double>, bool"), argc: 2 };
    assert_eq!(a.render(), "(std::map<int, double>), bool");
}

#[test]
fn test_args_void_elision() {
    let a = Args { args: String::from("  void  "), argc: 0 };
    assert_eq!(a.render(), "");
    let b = Args { args: String::new(), argc: 0 };
    assert_eq!(b.render(), "");
}

#[test]
fn test_args_exact_count_passes_through() {
    let a = Args { args: String::from("int, double"), argc: 2 };
    assert_eq!(a.render(), "int, double");
}

#[test]
fn test_rewrite_with_override() {
    let r = replace("MOCK_METHOD0(Foo, bool())", ReplaceMode::MultiLine, true);
    assert_eq!(r.suggestion.as_deref(), Some("MOCK_METHOD(bool, Foo, (), (override))"));
}

#[test]
fn test_rewrite_const_with_override() {
    let r = replace("MOCK_CONST_METHOD0(Foo, bool())", ReplaceMode::MultiLine, true);
    assert_eq!(r.suggestion.as_deref(), Some("MOCK_METHOD(bool, Foo, (), (const, override))"));
}

#[test]
fn test_unmatched_parenthesis_error_line() {
    let r = replace("MOCK_METHOD1(Foo, bool(int)", ReplaceMode::MultiLine, false);
    assert!(r.suggestion.is_none());
    assert_eq!(r.total, 1);
    assert_eq!(r.errors.len(), 1);
    assert!(r.errors[0].contains("UnmatchedParenthesisError"));
    assert!(!r.error_free());
}

#[test]
fn test_parse_signature_error_line() {
    let r = replace("MOCK_METHOD1(FooBool(int))", ReplaceMode::MultiLine, false);
    assert_eq!(r.errors.len(), 1);
    assert!(r.errors[0].contains("ParseSignatureError"));
}

#[test]
fn test_missing_calltype_is_parse_error() {
    let r = replace("MOCK_METHOD0_WITH_CALLTYPE()", ReplaceMode::MultiLine, false);
    assert_eq!(r.total, 1);
    assert_eq!(r.errors.len(), 1);
    assert!(r.errors[0].contains("ParseSignatureError"));
}

#[test]
fn test_error_summary_joins_lines() {
    let src = "MOCK_METHOD1(A, bool(int);\nMOCK_METHOD1(B, bool(int);";
    let r = replace(src, ReplaceMode::MultiLine, false);
    assert_eq!(r.errors.len(), 2);
    let joined = r.error_summary();
    assert_eq!(joined, format!("{}\n{}", r.errors[0], r.errors[1]));
}

#[test]
fn test_multiline_invocation() {
    let r = replace("MOCK_METHOD1\n(\nFoo,\nbool\n(int)\n);", ReplaceMode::MultiLine, false);
    assert_eq!(r.suggestion.as_deref(), Some("MOCK_METHOD(bool, Foo, (int));"));
    assert_eq!(r.total, 1);
    assert!(r.error_free());
}

#[test]
fn test_single_line_mode_skips_multiline_invocation() {
    let r = replace("MOCK_METHOD1\n(Foo, bool(int));", ReplaceMode::SingleLine, false);
    assert!(r.suggestion.is_none());
    assert_eq!(r.total, 0);
}

#[test]
fn test_single_line_mode_flags_broken_line() {
    let r = replace("MOCK_METHOD1(Foo,\nbool(int));", ReplaceMode::SingleLine, false);
    assert_eq!(r.total, 1);
    assert_eq!(r.errors.len(), 1);
}

#[test]
fn test_count_matches_rewrite_total() {
    let src = "MOCK_METHOD1(Foo, bool(int));MOCK_CONST_METHOD0(Bar, void());";
    let counted = search(src, SearchMode::Full).count.unwrap();
    let r = replace(src, ReplaceMode::MultiLine, false);
    assert_eq!(counted, r.total);
    let s = replace(src, ReplaceMode::SingleLine, false);
    assert_eq!(counted, s.total);
}

#[test]
fn test_rewrite_arity_ten() {
    let src = "MOCK_METHOD10(Big, void(int, int, int, int, int, int, int, int, int, int));";
    let r = replace(src, ReplaceMode::MultiLine, false);
    assert_eq!(
        r.suggestion.as_deref(),
        Some("MOCK_METHOD(void, Big, (int, int, int, int, int, int, int, int, int, int));")
    );
    assert!(r.error_free());
}

#[test]
fn test_rewrite_template_variant() {
    let r = replace("MOCK_METHOD1_T(Foo, bool(T))", ReplaceMode::MultiLine, false);
    assert_eq!(r.suggestion.as_deref(), Some("MOCK_METHOD(bool, Foo, (T))"));
}

#[test]
fn test_rewrite_preserves_non_ascii_text() {
    let src = "// naïve Größe 文字\nMOCK_METHOD0(Foo, bool());\n";
    let r = replace(src, ReplaceMode::MultiLine, false);
    assert_eq!(
        r.suggestion.as_deref(),
        Some("// naïve Größe 文字\nMOCK_METHOD(bool, Foo, ());\n")
    );
}

#[test]
fn test_failed_match_span_roundtrip() {
    let src = "MOCK_METHOD1(Bad, bool(int);";
    let r = replace(src, ReplaceMode::MultiLine, false);
    assert!(r.suggestion.is_none());
    assert_eq!(r.total, 1);
    assert_eq!(r.errors.len(), 1);
}
