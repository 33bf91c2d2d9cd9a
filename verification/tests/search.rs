use gmock_sed::{search, SearchMode, SearchSummary};

#[test]
fn test_singleline_macro() {
    let cpp = "MOCK_METHOD1(Foo, bool(int));";
    assert!(search(cpp, SearchMode::Lazy).is_match);
}

#[test]
fn test_multiline_macro() {
    let cpp = "MOCK_METHOD1\n(\nFoo,\nbool\n(int)\n);";
    assert!(search(cpp, SearchMode::Lazy).is_match);
}

#[test]
fn search_test_zero_match() {
    let cpp = "";
    let expected = SearchSummary { is_match: false, count: None };
    assert_eq!(search(cpp, SearchMode::Lazy), expected);
}

#[test]
fn search_test_single_match() {
    let cpp = "MOCK_METHOD1(Foo, bool(int))";
    let expected = SearchSummary { is_match: true, count: None };
    assert_eq!(search(cpp, SearchMode::Lazy), expected);
}

#[test]
fn search_test_multi_match() {
    let cpp = "MOCK_METHOD1(Foo, bool(int))\nMOCK_METHOD1(Bar, bool(int))";
    let expected = SearchSummary { is_match: true, count: None };
    assert_eq!(search(cpp, SearchMode::Lazy), expected);
}

#[test]
fn full_search_test_zero_match() {
    let cpp = "";
    let expected = SearchSummary { is_match: false, count: Some(0) };
    assert_eq!(search(cpp, SearchMode::Full), expected);
}

#[test]
fn full_search_test_single_match() {
    let cpp = "MOCK_METHOD1(Foo, bool(int))";
    let expected = SearchSummary { is_match: true, count: Some(1) };
    assert_eq!(search(cpp, SearchMode::Full), expected);
}

#[test]
fn full_search_test_multi_match() {
    let cpp = "MOCK_METHOD1(Foo, bool(int))\nMOCK_METHOD1(Bar, bool(int))";
    let expected = SearchSummary { is_match: true, count: Some(2) };
    assert_eq!(search(cpp, SearchMode::Full), expected);
}

#[test]
fn full_search_counts_const_variant() {
    let cpp = "MOCK_CONST_METHOD2(Foo, int(int, int)); MOCK_METHOD0(Bar, void());";
    let expected = SearchSummary { is_match: true, count: Some(2) };
    assert_eq!(search(cpp, SearchMode::Full), expected);
}
