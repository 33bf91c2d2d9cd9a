use gmock_sed::patterns::{calltype_token, find_match, match_head, sig_split};

#[test]
fn regexes_test_match() {
    let cpp = "MOCK_METHOD0(Foo, bool())";
    assert!(find_match(cpp, 0, false).is_some());
}

#[test]
fn regexes_test_groups() {
    let cpp = "MOCK_METHOD0(Foo, bool())";
    let m = find_match(cpp, 0, false).unwrap();
    assert_eq!(&cpp[..m.head.len], "MOCK_METHOD0");
    assert_eq!(&cpp[m.body_start..m.body_end], "(Foo, bool())");
}

#[test]
fn macro_regexes_test_match() {
    let cpp = "MOCK_CONST_METHOD0";
    assert!(match_head(cpp, 0).is_some());
}

#[test]
fn macro_regexes_test_groups() {
    let cpp = "MOCK_CONST_METHOD0_T_WITH_CALLTYPE";
    let h = match_head(cpp, 0).unwrap();
    assert!(h.is_const);
    assert_eq!(h.argc, 0);
    assert!(h.is_template);
    assert!(h.has_calltype);
}

#[test]
fn signature_regexes_test_match() {
    let cpp = "Foo, int(bool, double)";
    assert!(sig_split(cpp).is_some());
}

#[test]
fn signature_regexes_test_groups() {
    let cpp = "Foo, int(bool, double)";
    let (name, ret) = sig_split(cpp).unwrap();
    assert_eq!(name, "Foo");
    assert_eq!(ret, "int");
}

#[test]
fn test_find() {
    let cpp = "STDMETHODCALLTYPE, Foo, int(bool)";
    let m = calltype_token(cpp).unwrap();
    assert_eq!(m, "STDMETHODCALLTYPE");
}

#[test]
fn test_head_arity_ten() {
    let cpp = "MOCK_METHOD10(Foo, bool())";
    let h = match_head(cpp, 0).unwrap();
    assert_eq!(h.argc, 10);
    assert_eq!(&cpp[..h.len], "MOCK_METHOD10");
}

#[test]
fn test_head_rejects_missing_digit() {
    assert!(match_head("MOCK_METHODX(Foo, bool())", 0).is_none());
}

#[test]
fn test_calltype_token_missing() {
    assert!(calltype_token(", Foo, int(bool)").is_none());
    assert!(calltype_token("").is_none());
}

#[test]
fn test_sig_split_no_comma() {
    assert!(sig_split("FooBool").is_none());
}
