use rustmerge::paths::{
    candidate_files, child_path_of, create_output_file, file_name_of, is_root_path, join_path,
    last_name_of, nested_path_of, relative_path,
};

#[test]
fn module_paths_are_joined_with_double_colons() {
    assert_eq!(child_path_of("crate", "a"), "a");
    assert_eq!(child_path_of("a", "b"), "a::b");
    assert_eq!(child_path_of("a::b", "c"), "a::b::c");
    assert_eq!(nested_path_of("crate", "a"), "crate::a");
    assert_eq!(nested_path_of("a", "b"), "a::b");
    assert!(is_root_path("crate"));
    assert!(!is_root_path("crate::a"));
    assert!(!is_root_path(""));
}

#[test]
fn the_last_name_of_a_module_path_follows_the_last_separator() {
    assert_eq!(last_name_of("a::b::c"), "c");
    assert_eq!(last_name_of("a"), "a");
    assert_eq!(last_name_of(""), "");
    assert_eq!(last_name_of("a::"), "");
    assert_eq!(last_name_of("a:b"), "a:b");
    assert_eq!(last_name_of("::a"), "a");
}

#[test]
fn file_paths_are_joined_with_one_slash() {
    assert_eq!(join_path("src", "lib.rs"), "src/lib.rs");
    assert_eq!(join_path("src/", "lib.rs"), "src/lib.rs");
    assert_eq!(join_path("", "lib.rs"), "lib.rs");
    assert_eq!(join_path(".", "test_package"), "./test_package");
    assert_eq!(join_path("/", "a"), "/a");
    assert_eq!(join_path("src", "/abs/lib.rs"), "/abs/lib.rs");
    assert_eq!(join_path("src", ""), "src/");
}

#[test]
fn relative_paths_are_taken_under_the_source_directory() {
    assert_eq!(relative_path("/p/src", "/p/src/a/b.rs"), Some("a/b.rs".to_string()));
    assert_eq!(relative_path("/p/src/", "/p/src/lib.rs"), Some("lib.rs".to_string()));
    assert_eq!(relative_path("/p/src", "/p/srcx/lib.rs"), None);
    assert_eq!(relative_path("/p/src", "/q/src/lib.rs"), None);
    assert_eq!(relative_path("src/main.rs", "/p/src/main.rs"), None);
    assert_eq!(relative_path("", "lib.rs"), Some("lib.rs".to_string()));
    assert_eq!(relative_path("/p/src", "/p/src"), None);
}

#[test]
fn file_names_follow_the_last_slash() {
    assert_eq!(file_name_of("/a/b/c.rs"), "c.rs");
    assert_eq!(file_name_of("c.rs"), "c.rs");
    assert_eq!(file_name_of("/a/b/"), "");
    assert_eq!(file_name_of(""), "");
}

#[test]
fn module_files_have_three_candidates() {
    assert_eq!(
        candidate_files("/p/src/a.rs", "a", "b"),
        vec!["/p/src/b/mod.rs", "/p/src/a/b.rs", "/p/src/b.rs"]
    );
    assert_eq!(candidate_files("lib.rs", "m", "m"), vec!["m/mod.rs", "m/m.rs", "m.rs"]);
}

#[test]
fn output_files_are_named_after_the_package() {
    assert_eq!(create_output_file("target/rustmerge", "my_pkg"), "target/rustmerge/my_pkg.rs");
    assert_eq!(create_output_file("out/", "pkg"), "out/pkg.rs");
    assert_eq!(create_output_file("", "pkg"), "pkg.rs");
    assert_eq!(create_output_file("out", "a.b"), "out/a.rs");
    assert_eq!(create_output_file("out", "a.b.c"), "out/a.b.rs");
    assert_eq!(create_output_file("out", ".hidden"), "out/.hidden.rs");
    assert_eq!(create_output_file("out.d", "pkg"), "out.d/pkg.rs");
    assert_eq!(create_output_file("out", ""), "out/");
    assert_eq!(create_output_file("out", ".."), "out/..");
    assert_eq!(create_output_file("out", "a."), "out/a.rs");
}
