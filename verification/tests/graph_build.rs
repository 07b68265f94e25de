use rustmerge::builder::{parse_file_and_submodules, parse_module_items};
use rustmerge::error::MergeError;
use rustmerge::expand::process_package;
use rustmerge::graph::ModuleGraph;
use rustmerge::merge::{parse_module_structure, parse_sources, SourceFile};
use rustmerge::render::render;
use rustmerge::rewrite::rewrite_markers;
use rustmerge::syntax::parse_source;

fn file(path: &str, text: &str) -> SourceFile {
    SourceFile { path: path.to_string(), text: text.to_string() }
}

fn finished(graph: &ModuleGraph) -> String {
    let stream = process_package(graph).expect("Failed to process package");
    rewrite_markers(&render(&stream))
}

#[test]
fn test_parse_module_structure() {
    let files = vec![
        file("/pkg/src/lib.rs", "pub mod example_module;\n"),
        file("/pkg/src/example_module.rs", "pub fn example_function() -> i32 { 42 }\n"),
    ];
    let module_structure =
        parse_module_structure("/pkg/src", &files).expect("Failed to parse module structure");
    assert!(module_structure.contains_key("crate"));
    assert!(module_structure.contains_key("example_module"));
}

fn nested_package(mod_a1: &str) -> Vec<SourceFile> {
    vec![
        file("/pkg/src/lib.rs", "pub mod module_a;\npub mod module_b;\n"),
        file("/pkg/src/module_a/mod.rs", "pub mod mod_a1;\npub mod mod_a2;\n"),
        file("/pkg/src/module_a/mod_a1.rs", mod_a1),
        file("/pkg/src/module_a/mod_a2.rs", "pub fn function_a2() -> i32 { 20 }\n"),
        file("/pkg/src/module_b/mod.rs", "pub mod mod_b1;\npub mod mod_b2;\npub mod submodule;\n"),
        file("/pkg/src/module_b/mod_b1.rs", "pub fn function_b1() -> i32 { 30 }\n"),
        file("/pkg/src/module_b/mod_b2.rs", "pub fn function_b2() -> i32 { 40 }\n"),
        file("/pkg/src/module_b/submodule/mod.rs", "pub mod mod_b3;\n"),
        file("/pkg/src/module_b/submodule/mod_b3.rs", "pub fn function_b3() -> i32 { 50 }\n"),
    ]
}

#[test]
fn test_parse_nested_module_structure() {
    let files = nested_package("pub fn function_a1() -> i32 { 10 }\n");
    let module_structure =
        parse_module_structure("/pkg/src", &files).expect("Failed to parse module structure");
    assert!(module_structure.contains_key("crate"));
    assert!(module_structure.contains_key("module_a"));
    assert!(module_structure.contains_key("module_a::mod_a1"));
    assert!(module_structure.contains_key("module_a::mod_a2"));
    assert!(module_structure.contains_key("module_b"));
    assert!(module_structure.contains_key("module_b::mod_b1"));
    assert!(module_structure.contains_key("module_b::mod_b2"));
    assert!(module_structure.contains_key("module_b::submodule::mod_b3"));
    let formated_code = finished(&module_structure);
    println!("{}", formated_code);
    for name in ["function_a1", "function_a2", "function_b1", "function_b2", "function_b3"] {
        assert!(formated_code.contains(name));
    }
}

#[test]
fn test_process_package() {
    let files = vec![
        file("/pkg/src/lib.rs", "pub mod example_module;\n"),
        file("/pkg/src/example_module.rs", "pub fn example_function() -> i32 { 42 }\n"),
    ];
    let module_structure =
        parse_module_structure("/pkg/src", &files).expect("Failed to parse module structure");
    let formated_code = finished(&module_structure);
    println!("{}", formated_code);
    assert_eq!(
        formated_code,
        "// lib.rs\npub mod example_module {\n// example_module.rs\npub fn example_function () -> i32 { 42 }\n}\n"
    );
}

#[test]
fn test_parse_nested_module_structure_with_simple_mod() {
    let files = vec![file(
        "/pkg/src/lib.rs",
        r#"
            const MY_CONSTANT: i32 = 42;

            #[cfg(not(test))]
            mod mother_mod {
                fn mother_function() -> i32 { 10 }
                pub mod nested_mod {
                    fn nested_function() -> i32 { 20 }
                }
            }
           "#,
    )];
    let module_structure =
        parse_module_structure("/pkg/src", &files).expect("Failed to parse module structure");
    assert!(module_structure.contains_key("crate"));
    let formated_code = finished(&module_structure);
    println!("{}", formated_code);
    assert!(formated_code.contains("# [cfg (not (test))]\npub mod mother_mod {"));
    assert!(formated_code.contains("nested_function"));
    assert_eq!(formated_code.matches("// ").count(), 1);
}

#[test]
fn test_parse_nested_module_structure_with_complex_mod() {
    let files = nested_package(
        r#"
        pub mod function_a1_mod {
            pub fn function_a1() -> i32 { 10 }
        }
           "#,
    );
    let module_structure =
        parse_module_structure("/pkg/src", &files).expect("Failed to parse module structure");
    assert!(module_structure.contains_key("crate"));
    assert!(module_structure.contains_key("module_a"));
    assert!(module_structure.contains_key("module_a::mod_a1"));
    assert!(module_structure.contains_key("module_a::mod_a2"));
    assert!(module_structure.contains_key("module_b"));
    assert!(module_structure.contains_key("module_b::mod_b1"));
    assert!(module_structure.contains_key("module_b::mod_b2"));
    assert!(module_structure.contains_key("module_b::submodule::mod_b3"));
    let formated_code = finished(&module_structure);
    println!("{}", formated_code);
    assert!(formated_code.contains("pub mod function_a1_mod {"));
}

#[test]
fn test_parse_nested_module_structure_with_complex_mod_2() {
    let files = vec![
        file("/t/test_package/src/main.rs", "\nmod mother_mod;\n"),
        file(
            "/t/test_package/src/mother_mod.rs",
            "\nfn mother_function() -> i32 {\n    10\n}\n\npub mod nested_mod;\n",
        ),
        file(
            "/t/test_package/src/mother_mod/nested_mod.rs",
            "\npub fn nested_function() -> i32 {\n    20\n}\n",
        ),
    ];
    let package = parse_sources("src/main.rs", &files);
    let mut module_structure = ModuleGraph::new();
    parse_file_and_submodules(
        "/t/test_package/src/main.rs",
        "crate",
        &mut module_structure,
        &package,
    )
    .unwrap();
    let formatted_code = finished(&module_structure);
    println!("{}", formatted_code);
    assert!(module_structure.contains_key("mother_mod::nested_mod"));
    assert!(formatted_code.contains("// main.rs"));
    assert!(formatted_code.contains("// mother_mod.rs"));
    assert!(formatted_code.contains("// nested_mod.rs"));
}

#[test]
fn test_parse_file_and_submodules() {
    let file_content = r#"
            #[cfg(feature = "canbench")]
            mod bench_mod {
                pub fn bench_function() {}
            }

            mod normal_mod {
                pub fn normal_function() {}
            }
        "#;
    let package = parse_sources("test.rs", &vec![file("test.rs", file_content)]);
    let mut module_structure = ModuleGraph::new();
    parse_file_and_submodules("test.rs", "mod", &mut module_structure, &package).unwrap();
    assert!(module_structure.contains_key("mod::bench_mod"));
    assert!(module_structure.contains_key("mod::normal_mod"));
}

#[test]
fn test_parse_module_items() {
    let items = parse_source(
        r#"
                #[cfg(feature = "canbench")]
                mod bench_mod {
                    pub fn bench_function() {}
                }
                mod normal_mod {
                    pub fn normal_function() {}
                }
        "#,
    )
    .unwrap();
    let package = parse_sources("src", &vec![]);
    let mut module_structure = ModuleGraph::new();
    parse_module_items(&items, "test.rs", "crate", &mut module_structure, &package).unwrap();
    assert!(module_structure.contains_key("crate::bench_mod"));
    assert!(module_structure.contains_key("crate::normal_mod"));
}

#[test]
fn test_ignore_cfg_test_module() {
    let files = vec![file(
        "/pkg/src/lib.rs",
        r#"
            pub mod keep_this_module {
                pub fn keep_fn() {}
            }

            #[cfg(test)]
            mod ignore_this_module {
                fn test_fn() {}
            }
            "#,
    )];
    let module_structure = parse_module_structure("/pkg/src", &files).unwrap();
    assert!(module_structure.contains_key("crate"));
    assert!(module_structure.contains_key("keep_this_module"));
    assert!(!module_structure.contains_key("ignore_this_module"));
    let formatted_code = finished(&module_structure);
    assert!(formatted_code.contains("keep_this_module"));
    assert!(formatted_code.contains("keep_fn"));
    assert!(!formatted_code.contains("ignore_this_module"));
    assert!(!formatted_code.contains("test_fn"));
}

#[test]
fn test_ignore_cfg_test_function() {
    let files = vec![file(
        "/pkg/src/lib.rs",
        r#"
            pub fn keep_this_fn() {}

            #[cfg(test)]
            fn ignore_this_fn() {}

            mod my_module {
                pub fn keep_this_module_fn() {}

                #[cfg(test)]
                fn ignore_this_module_fn() {}
            }
            "#,
    )];
    let module_structure = parse_module_structure("/pkg/src", &files).unwrap();
    let formatted_code = finished(&module_structure);
    assert!(formatted_code.contains("keep_this_fn"));
    assert!(!formatted_code.contains("ignore_this_fn"));
    assert!(formatted_code.contains("my_module"));
    assert!(formatted_code.contains("keep_this_module_fn"));
    assert!(!formatted_code.contains("ignore_this_module_fn"));
}

#[test]
fn test_ignore_cfg_test_item_in_module() {
    let files = vec![file(
        "/pkg/src/lib.rs",
        r#"
            pub mod outer_module {
                pub struct KeepStruct;

                #[cfg(test)]
                struct IgnoreStruct;

                pub fn keep_fn_in_outer() {}
            }
            "#,
    )];
    let module_structure = parse_module_structure("/pkg/src", &files).unwrap();
    assert!(module_structure.contains_key("crate"));
    assert!(module_structure.contains_key("outer_module"));
    let formatted_code = finished(&module_structure);
    assert!(formatted_code.contains("outer_module"));
    assert!(formatted_code.contains("KeepStruct"));
    assert!(formatted_code.contains("keep_fn_in_outer"));
    assert!(!formatted_code.contains("IgnoreStruct"));
}

#[test]
fn test_process_items_not_cfg_test() {
    let files = vec![file(
        "/pkg/src/lib.rs",
        r#"
            pub struct MyStruct;
            pub enum MyEnum { Variant1, Variant2 }
            pub fn my_function() {}
            pub mod my_module {
                pub const MY_CONST: i32 = 1;
            }
            "#,
    )];
    let module_structure = parse_module_structure("/pkg/src", &files).unwrap();
    let formatted_code = finished(&module_structure);
    assert!(formatted_code.contains("MyStruct"));
    assert!(formatted_code.contains("MyEnum"));
    assert!(formatted_code.contains("my_function"));
    assert!(formatted_code.contains("my_module"));
    assert!(formatted_code.contains("MY_CONST"));
}

#[test]
fn test_ignore_test_module_name() {
    let files = vec![file(
        "/pkg/src/lib.rs",
        r#"
            pub mod keep_this_too {
                pub fn another_kept_fn() {}
            }
            mod test { // Should be ignored by name
                fn this_is_a_test_fn() {}
            }
            "#,
    )];
    let module_structure = parse_module_structure("/pkg/src", &files).unwrap();
    assert!(module_structure.contains_key("crate"));
    assert!(module_structure.contains_key("keep_this_too"));
    assert!(!module_structure.contains_key("test"));
    let formatted_code = finished(&module_structure);
    assert!(formatted_code.contains("keep_this_too"));
    assert!(formatted_code.contains("another_kept_fn"));
    assert!(!formatted_code.contains("this_is_a_test_fn"));
    assert!(!formatted_code.contains("mod test"));
}

#[test]
fn test_ignore_tests_module_name() {
    let files = vec![file(
        "/pkg/src/lib.rs",
        r#"
            pub mod keeper_module {
                pub fn some_public_fn() {}
            }
            mod tests { // Should be ignored by name
                fn this_is_another_test_fn() {}
            }
            "#,
    )];
    let module_structure = parse_module_structure("/pkg/src", &files).unwrap();
    assert!(module_structure.contains_key("crate"));
    assert!(module_structure.contains_key("keeper_module"));
    assert!(!module_structure.contains_key("tests"));
    let formatted_code = finished(&module_structure);
    assert!(formatted_code.contains("keeper_module"));
    assert!(formatted_code.contains("some_public_fn"));
    assert!(!formatted_code.contains("this_is_another_test_fn"));
    assert!(!formatted_code.contains("mod tests"));
}

#[test]
fn missing_module_file_fails_the_build() {
    let files = vec![file("/pkg/src/lib.rs", "pub fn kept() {}\npub mod absent;\n")];
    assert_eq!(
        parse_module_structure("/pkg/src", &files),
        Err(MergeError::ModuleFileNotFound { module: "absent".to_string() })
    );
}

#[test]
fn missing_root_file_fails_the_build() {
    let files = vec![file("/pkg/src/other.rs", "pub fn kept() {}\n")];
    assert_eq!(parse_module_structure("/pkg/src", &files), Err(MergeError::ManifestEntryMissing));
    assert_eq!(parse_module_structure("/pkg/src", &vec![]), Err(MergeError::ManifestEntryMissing));
}

#[test]
fn a_failed_registration_leaves_the_graph_as_it_was() {
    let files = vec![
        file("src/lib.rs", "mod first { mod deep {} }\nmod second;\nmod absent;"),
        file("src/second.rs", "fn s() {}"),
    ];
    let package = parse_sources("src", &files);
    let mut graph = ModuleGraph::new();
    parse_file_and_submodules("src/second.rs", "kept", &mut graph, &package).unwrap();
    assert_eq!(graph.len(), 1);
    assert_eq!(
        parse_file_and_submodules("src/lib.rs", "crate", &mut graph, &package),
        Err(MergeError::ModuleFileNotFound { module: "absent".to_string() })
    );
    assert_eq!(graph.len(), 1);
    assert!(graph.contains_key("kept"));
    assert!(!graph.contains_key("first"));
    assert!(!graph.contains_key("first::deep"));
    assert!(!graph.contains_key("second"));
    assert!(!graph.contains_key("crate"));
    let items = parse_source("mod a {}\nmod kept {}").unwrap();
    assert_eq!(
        parse_module_items(&items, "src/lib.rs", "", &mut graph, &package),
        Ok(())
    );
    assert_eq!(graph.len(), 4);
    let items = parse_source("mod b {}\nmod c;").unwrap();
    assert!(parse_module_items(&items, "src/lib.rs", "x", &mut graph, &package).is_err());
    assert_eq!(graph.len(), 4);
}

#[test]
fn a_body_in_a_file_outside_the_package_is_walked() {
    let package = parse_sources("", &vec![file("a.rs", "fn in_a() {}")]);
    let items = parse_source("mod a;").unwrap();
    let mut graph = ModuleGraph::new();
    assert_eq!(parse_module_items(&items, "lib.rs", "m", &mut graph, &package), Ok(()));
    assert!(graph.contains_key("m::a"));
    assert!(graph.contains_key("m"));
    assert_eq!(graph.len(), 2);
}
