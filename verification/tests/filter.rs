use rustmerge::filter::{extract_cfg_attrs, is_cfg_test_attr, is_ignored_item, keep_items};
use rustmerge::item::{clone_items, Attr, SourceItem};
use rustmerge::syntax::parse_source;

fn attr(name: &str, arguments: Option<&str>) -> Attr {
    let text = match arguments {
        Some(a) => format!("# [{} ({})]", name, a),
        None => format!("# [{}]", name),
    };
    Attr { name: Some(name.to_string()), arguments: arguments.map(|a| a.to_string()), text }
}

fn module(name: &str, attrs: Vec<Attr>) -> SourceItem {
    SourceItem::Module { name: name.to_string(), attrs, body: Some(vec![]) }
}

fn plain(attrs: Vec<Attr>) -> SourceItem {
    SourceItem::Verbatim { attrs, text: "fn f () { }".to_string() }
}

#[test]
fn test_modules_are_ignored_by_name_without_attributes() {
    assert!(is_ignored_item(&module("test", vec![])));
    assert!(is_ignored_item(&module("tests", vec![])));
    assert!(is_ignored_item(&SourceItem::Module {
        name: "tests".to_string(),
        attrs: vec![],
        body: None
    }));
    assert!(is_ignored_item(&module("test", vec![attr("cfg", Some("unix"))])));
}

#[test]
fn other_module_names_are_kept() {
    assert!(!is_ignored_item(&module("testing", vec![])));
    assert!(!is_ignored_item(&module("Test", vec![])));
    assert!(!is_ignored_item(&module("", vec![])));
    assert!(!is_ignored_item(&module("test_", vec![])));
}

#[test]
fn only_the_exact_cfg_test_attribute_is_test_gating() {
    assert!(is_ignored_item(&plain(vec![attr("cfg", Some("test"))])));
    assert!(is_ignored_item(&module("m", vec![attr("cfg", Some("test"))])));
    assert!(is_ignored_item(&plain(vec![attr("inline", None), attr("cfg", Some("test"))])));
    assert!(!is_ignored_item(&plain(vec![])));
    assert!(!is_ignored_item(&plain(vec![attr("cfg", Some("not (test)"))])));
    assert!(!is_ignored_item(&plain(vec![attr("cfg", Some("all (test , unix)"))])));
    assert!(!is_ignored_item(&plain(vec![attr("cfg", None)])));
    assert!(!is_ignored_item(&plain(vec![attr("test", None)])));
    assert!(!is_ignored_item(&plain(vec![attr("cfg_attr", Some("test"))])));
    assert!(!is_ignored_item(&plain(vec![Attr {
        name: None,
        arguments: Some("test".to_string()),
        text: "# [a :: cfg (test)]".to_string(),
    }])));
}

#[test]
fn is_cfg_test_attr_looks_at_every_attribute() {
    assert!(!is_cfg_test_attr(&vec![]));
    assert!(is_cfg_test_attr(&vec![attr("doc", None), attr("cfg", Some("test"))]));
    assert!(!is_cfg_test_attr(&vec![attr("doc", None), attr("cfg", Some("unix"))]));
}

#[test]
fn extract_cfg_attrs_keeps_cfg_attributes_in_order() {
    let attrs = vec![
        attr("cfg", Some("unix")),
        attr("inline", None),
        attr("cfg", Some("feature = \"x\"")),
        attr("cfg_attr", Some("unix")),
    ];
    assert_eq!(
        extract_cfg_attrs(&attrs),
        vec![attr("cfg", Some("unix")), attr("cfg", Some("feature = \"x\""))]
    );
    assert_eq!(extract_cfg_attrs(&vec![]), vec![]);
}

#[test]
fn keep_items_drops_test_only_items_and_keeps_order() {
    let items = vec![
        plain(vec![]),
        module("tests", vec![]),
        module("kept", vec![]),
        plain(vec![attr("cfg", Some("test"))]),
        SourceItem::Verbatim { attrs: vec![], text: "struct S ;".to_string() },
    ];
    assert_eq!(
        keep_items(&items),
        vec![
            plain(vec![]),
            module("kept", vec![]),
            SourceItem::Verbatim { attrs: vec![], text: "struct S ;".to_string() },
        ]
    );
}

#[test]
fn parsed_items_are_filtered_as_written() {
    let items = parse_source(
        "#[cfg(test)] fn a() {}\n#[cfg(not(test))] fn b() {}\n#[test] fn c() {}\nmod tests {}\n#[cfg(any(test))] mod d {}",
    )
    .unwrap();
    let ignored: Vec<bool> = items.iter().map(is_ignored_item).collect();
    assert_eq!(ignored, vec![true, false, false, true, false]);
}

#[test]
fn attributes_written_inside_a_module_count() {
    let items = parse_source("mod a { #![cfg(test)] fn f() {} }\nmod b { #![allow(unused)] }").unwrap();
    let ignored: Vec<bool> = items.iter().map(is_ignored_item).collect();
    assert_eq!(ignored, vec![true, false]);
    match &items[0] {
        SourceItem::Module { attrs, .. } => {
            assert_eq!(
                attrs,
                &vec![Attr {
                    name: Some("cfg".to_string()),
                    arguments: Some("test".to_string()),
                    text: "# ! [cfg (test)]".to_string(),
                }]
            );
        }
        other => panic!("not a module: {:?}", other),
    }
}

#[test]
fn clone_items_copies_nested_bodies() {
    let items = parse_source("mod a { mod b { fn f() {} } }\n#[inline] fn g() {}").unwrap();
    assert_eq!(clone_items(&items), items);
}
