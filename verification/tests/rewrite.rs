use rustmerge::rewrite::{marker_comment_of, rewrite_markers, rewrite_with, MarkerMatch};

fn found(text: &str, payload: Option<&str>) -> MarkerMatch {
    (text.to_string(), payload.map(|p| p.to_string()))
}

fn strings(items: &[&str]) -> Vec<String> {
    items.iter().map(|s| s.to_string()).collect()
}

#[test]
fn test_format_rust_code() {
    let code = r#"fn main() {println!("Hello, world!");}"#;
    let formatted_code = rewrite_markers(code);
    assert!(formatted_code.contains("fn main() {"));
    assert_eq!(formatted_code, code);
}

#[test]
fn markers_become_comments_however_they_are_spaced() {
    assert_eq!(
        rewrite_markers("const _: &'static str = \"RUSTMERGE_COMMENT_src__SLASH__lib__DOT__rs\";\nfn f() {}\n"),
        "// src/lib.rs\nfn f() {}\n"
    );
    assert_eq!(
        rewrite_markers("const _ : & 'static str = \"RUSTMERGE_COMMENT_a__UNDERSCORE__b__DASH__c\" ;"),
        "// a_b-c"
    );
    assert_eq!(
        rewrite_markers("const\n_\n:\n&\n'static\nstr\n=\n\"RUSTMERGE_COMMENT_x\"\n;"),
        "// x"
    );
}

#[test]
fn text_between_markers_is_kept() {
    let text = "pub mod a {\n    const _: &'static str = \"RUSTMERGE_COMMENT_a__DOT__rs\";\n    fn a() {}\n}\npub mod b {\n    const _: &'static str = \"RUSTMERGE_COMMENT_b__DOT__rs\";\n}\n";
    assert_eq!(
        rewrite_markers(text),
        "pub mod a {\n    // a.rs\n    fn a() {}\n}\npub mod b {\n    // b.rs\n}\n"
    );
}

#[test]
fn text_without_markers_is_unchanged() {
    for text in [
        "",
        "fn f() {}",
        "const _: &'static str = \"OTHER\";",
        "const _: &'static str = \"RUSTMERGE_COMMENT_\";",
        "const x: &'static str = \"RUSTMERGE_COMMENT_a\";",
        "const _: &str = \"RUSTMERGE_COMMENT_a\";",
        "// a.rs\n",
    ] {
        assert_eq!(rewrite_markers(text), text);
    }
}

#[test]
fn rewriting_rewritten_text_changes_nothing() {
    let text = "const _: &'static str = \"RUSTMERGE_COMMENT_lib__DOT__rs\";\npub mod a {\nconst _: &'static str = \"RUSTMERGE_COMMENT_a__DOT__rs\";\n}\n";
    let once = rewrite_markers(text);
    assert_eq!(once, "// lib.rs\npub mod a {\n// a.rs\n}\n");
    let twice = rewrite_markers(&once);
    assert_eq!(twice, once);
    assert_eq!(rewrite_markers(&twice), once);
}

#[test]
fn a_marker_can_appear_only_once_rewritten() {
    let text = "const _: &'static str = \"RUSTMERGE_COMMENT_xconst _: &'static str = \"RUSTMERGE_COMMENT_a__DOT__rs\";\";";
    let once = rewrite_markers(text);
    assert_eq!(once, "const _: &'static str = \"RUSTMERGE_COMMENT_x// a.rs\";");
    assert_eq!(rewrite_markers(&once), "// x// a.rs");
}

#[test]
fn rewrite_with_splices_comments_between_the_pieces() {
    assert_eq!(
        rewrite_with("aXbYc", &strings(&["a", "b", "c"]), &vec![found("X", Some("p__DOT__q")), found("Y", Some("r"))]),
        "a// p.qb// rc"
    );
    assert_eq!(rewrite_with("abc", &strings(&["abc"]), &vec![]), "abc");
    assert_eq!(rewrite_with("X", &strings(&["", ""]), &vec![found("X", None)]), "X");
    assert_eq!(rewrite_with("X", &strings(&["", ""]), &vec![found("X", Some(""))]), "// ");
}

#[test]
fn rewrite_with_ignores_a_report_that_does_not_fit() {
    assert_eq!(rewrite_with("aXb", &strings(&["a"]), &vec![found("X", Some("p"))]), "aXb");
    assert_eq!(rewrite_with("aXb", &strings(&["a", "b", "c"]), &vec![found("X", Some("p"))]), "aXb");
    assert_eq!(rewrite_with("aXb", &strings(&["a", "c"]), &vec![found("X", Some("p"))]), "aXb");
    assert_eq!(rewrite_with("aXb", &strings(&["a", "b"]), &vec![found("Y", Some("p"))]), "aXb");
    assert_eq!(rewrite_with("aXb", &vec![], &vec![]), "aXb");
    assert_eq!(rewrite_with("", &vec![], &vec![]), "");
}

#[test]
fn marker_comments_name_the_decoded_path() {
    assert_eq!(marker_comment_of("src__SLASH__a__DOT__rs"), "// src/a.rs");
    assert_eq!(marker_comment_of(""), "// ");
    assert_eq!(marker_comment_of("__UNDERSCORE__DOT__UNDERSCORE__"), "// _DOT_");
}
