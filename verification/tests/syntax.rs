use rustmerge::item::{Attr, SourceItem};
use rustmerge::syntax::parse_source;

#[test]
fn parse_source_reads_items_in_order() {
    let items = parse_source("fn a() {}\nstruct B;\n").unwrap();
    assert_eq!(
        items,
        vec![
            SourceItem::Verbatim { attrs: vec![], text: "fn a () { }".to_string() },
            SourceItem::Verbatim { attrs: vec![], text: "struct B ;".to_string() },
        ]
    );
}

#[test]
fn parse_source_reads_attributes() {
    let items = parse_source("#[cfg(test)]\n#[derive(Debug)]\n#[rustfmt::skip]\n#[inline]\nstruct S;").unwrap();
    assert_eq!(items.len(), 1);
    match &items[0] {
        SourceItem::Verbatim { attrs, text } => {
            assert_eq!(
                attrs,
                &vec![
                    Attr {
                        name: Some("cfg".to_string()),
                        arguments: Some("test".to_string()),
                        text: "# [cfg (test)]".to_string(),
                    },
                    Attr {
                        name: Some("derive".to_string()),
                        arguments: Some("Debug".to_string()),
                        text: "# [derive (Debug)]".to_string(),
                    },
                    Attr {
                        name: None,
                        arguments: None,
                        text: "# [rustfmt :: skip]".to_string(),
                    },
                    Attr { name: Some("inline".to_string()), arguments: None, text: "# [inline]".to_string() },
                ]
            );
            assert_eq!(
                text,
                "# [cfg (test)] # [derive (Debug)] # [rustfmt :: skip] # [inline] struct S ;"
            );
        }
        other => panic!("not a plain item: {:?}", other),
    }
}

#[test]
fn parse_source_reads_modules() {
    let items = parse_source("mod outer { mod inner; fn f() {} }\npub mod later;").unwrap();
    assert_eq!(
        items,
        vec![
            SourceItem::Module {
                name: "outer".to_string(),
                attrs: vec![],
                body: Some(vec![
                    SourceItem::Module { name: "inner".to_string(), attrs: vec![], body: None },
                    SourceItem::Verbatim { attrs: vec![], text: "fn f () { }".to_string() },
                ]),
            },
            SourceItem::Module { name: "later".to_string(), attrs: vec![], body: None },
        ]
    );
}

#[test]
fn parse_source_reads_every_kind_of_item() {
    let text = r#"
        #[a] const C: u8 = 1;
        #[a] enum E {}
        #[a] extern crate core;
        #[a] fn f() {}
        #[a] extern "C" {}
        #[a] impl S {}
        #[a] m!();
        #[a] mod n;
        #[a] static T: u8 = 1;
        #[a] struct S;
        #[a] trait R {}
        #[a] trait Q = R;
        #[a] type U = u8;
        #[a] union V { x: u8 }
        #[a] use core::fmt;
    "#;
    let items = parse_source(text).unwrap();
    assert_eq!(items.len(), 15);
    for item in &items {
        let attrs = match item {
            SourceItem::Verbatim { attrs, .. } => attrs,
            SourceItem::Module { attrs, .. } => attrs,
        };
        assert_eq!(attrs.len(), 1, "{:?}", item);
        assert_eq!(attrs[0].name, Some("a".to_string()));
    }
}

#[test]
fn parse_source_reports_invalid_text() {
    let result = parse_source("fn broken( {");
    assert!(result.is_err());
    assert!(!result.unwrap_err().is_empty());
}

#[test]
fn parse_source_accepts_empty_text() {
    assert_eq!(parse_source(""), Ok(vec![]));
}

#[test]
fn parse_source_follows_deep_nesting() {
    let items = parse_source("mod a{mod b{mod c{mod d{}}}}").unwrap();
    let mut depth = 0;
    let mut level = &items;
    while let Some(SourceItem::Module { body: Some(body), .. }) = level.first() {
        depth += 1;
        level = body;
    }
    assert_eq!(depth, 4);
}
