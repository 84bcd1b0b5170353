use xdftuneparser::assemble::{assemble_math, assemble_table};
use xdftuneparser::data_types::{XDFAxis, XDFElement};
use xdftuneparser::dialect::Dialect;
use xdftuneparser::events::{Attr, Event};

fn axis(id: &str) -> XDFAxis {
    XDFAxis {
        id: Some(id.to_string()),
        uid: None,
        embeddeddata: None,
        datatype: None,
        unittype: None,
        dalink_index: None,
        math: None,
        count: None,
        labels: Vec::new(),
        min: None,
        max: None,
        outputtype: None,
        decimalplaces: None,
        unit: None,
        embedinfo: None,
    }
}

#[test]
fn singleton_keeps_last_and_lists_keep_order() {
    // Children of several kinds in an arbitrary interleaving: singleton
    // slots end up with the last occurrence of their kind, list slots with
    // every occurrence in order.
    let children = vec![
        XDFElement::Title("first".to_string()),
        XDFElement::XDFAxis(axis("x")),
        XDFElement::Flags(1),
        XDFElement::Description("d".to_string()),
        XDFElement::XDFAxis(axis("y")),
        XDFElement::Title("second".to_string()),
        XDFElement::Flags(2),
        XDFElement::XDFAxis(axis("z")),
    ];
    let t = assemble_table(Some(7), children);
    assert_eq!(t.uid, Some(7));
    assert_eq!(t.title, Some("second".to_string()));
    assert_eq!(t.flags, Some(2));
    assert_eq!(t.description, Some("d".to_string()));
    assert_eq!(t.catmem, None);
    let ids: Vec<_> = t.axis.iter().map(|a| a.id.clone().unwrap()).collect();
    assert_eq!(ids, vec!["x".to_string(), "y".to_string(), "z".to_string()]);
}

#[test]
fn empty_children_leave_fields_unspecified() {
    let t = assemble_table(None, Vec::new());
    assert_eq!(t.title, None);
    assert_eq!(t.flags, None);
    assert_eq!(t.description, None);
    assert!(t.axis.is_empty());
}

#[test]
fn math_vars_keep_document_order() {
    let m = assemble_math(
        Some("X+Y".to_string()),
        vec![
            XDFElement::Var("X".to_string()),
            XDFElement::Var("Y".to_string()),
        ],
    );
    assert_eq!(m.expression, Some("X+Y".to_string()));
    assert_eq!(m.vars, vec!["X".to_string(), "Y".to_string()]);
}

#[test]
fn header_last_category_wins() {
    let events = vec![
        Event::TagOpen { name: "xdfheader".to_string(), attrs: Vec::new() },
        Event::TagOpen {
            name: "CATEGORY".to_string(),
            attrs: vec![
                Attr { name: "index".to_string(), value: "0x0".to_string() },
                Attr { name: "name".to_string(), value: "one".to_string() },
            ],
        },
        Event::TagClose { name: "CATEGORY".to_string() },
        Event::TagOpen {
            name: "CATEGORY".to_string(),
            attrs: vec![
                Attr { name: "index".to_string(), value: "0x1".to_string() },
                Attr { name: "name".to_string(), value: "two".to_string() },
            ],
        },
        Event::TagClose { name: "CATEGORY".to_string() },
        Event::TagClose { name: "xdfheader".to_string() },
    ];
    let mut pos: usize = 0;
    let r = XDFElement::from_xml(&events, &mut pos, Dialect::Current);
    match r {
        Ok(XDFElement::XDFHeader(h)) => {
            let c = h.category.expect("category should be set");
            assert_eq!(c.index, Some(1));
            assert_eq!(c.name, Some("two".to_string()));
        },
        other => panic!("expected a header, got {:?}", other),
    }
}
