use xdftuneparser::data_types::XDFElement;
use xdftuneparser::dialect::Dialect;
use xdftuneparser::error::Error;
use xdftuneparser::events::{Attr, Event};
use xdftuneparser::parser::extract_text;

fn open(name: &str, attrs: &[(&str, &str)]) -> Event {
    Event::TagOpen {
        name: name.to_string(),
        attrs: attrs
            .iter()
            .map(|(n, v)| Attr { name: n.to_string(), value: v.to_string() })
            .collect(),
    }
}

fn text(content: &str) -> Event {
    Event::Text { content: content.to_string() }
}

fn close(name: &str) -> Event {
    Event::TagClose { name: name.to_string() }
}

#[test]
fn extract_text_title() {
    let events = vec![text("Foo"), close("title")];
    let mut pos: usize = 0;
    assert_eq!(extract_text(&events, &mut pos), Ok("Foo".to_string()));
    assert_eq!(pos, 2);
}

#[test]
fn extract_text_empty_leaf() {
    let events = vec![close("title")];
    let mut pos: usize = 0;
    assert_eq!(extract_text(&events, &mut pos), Ok(String::new()));
    assert_eq!(pos, 1);
}

#[test]
fn extract_text_rejects_nested_open() {
    let events = vec![open("x", &[]), close("x")];
    let mut pos: usize = 0;
    assert!(matches!(
        extract_text(&events, &mut pos),
        Err(Error::UnexpectedEvent(_))
    ));
}

#[test]
fn title_leaf_parses() {
    let events = vec![open("title", &[]), text("Foo"), close("title")];
    let mut pos: usize = 0;
    let r = XDFElement::from_xml(&events, &mut pos, Dialect::Current);
    assert_eq!(r, Ok(XDFElement::Title("Foo".to_string())));
    assert_eq!(pos, 3);
}

#[test]
fn unknown_tag_fails() {
    let events = vec![Event::DocStart, open("bogus", &[])];
    let mut pos: usize = 0;
    let r = XDFElement::from_xml(&events, &mut pos, Dialect::Current);
    assert_eq!(r, Err(Error::UnknownType));
}

#[test]
fn stray_text_fails() {
    let events = vec![text("hi")];
    let mut pos: usize = 0;
    assert!(matches!(
        XDFElement::from_xml(&events, &mut pos, Dialect::Current),
        Err(Error::UnexpectedEvent(_))
    ));
}

#[test]
fn close_gives_end_marker() {
    let events = vec![close("foo")];
    let mut pos: usize = 0;
    let r = XDFElement::from_xml(&events, &mut pos, Dialect::Current);
    assert_eq!(r, Ok(XDFElement::End("foo".to_string())));
}

#[test]
fn ignorable_container_skipped_as_unit() {
    // An ignorable container full of nested tags no dialect knows is
    // skipped wholesale; parsing resumes right after its matching close.
    let events = vec![
        Event::DocStart,
        open("XDFPATCH", &[]),
        open("weird", &[]),
        open("weirder", &[]),
        text("junk"),
        close("weirder"),
        close("weird"),
        close("XDFPATCH"),
        open("xdftable", &[("uniqueid", "0x5")]),
        close("xdftable"),
    ];
    let mut pos: usize = 0;
    let r = XDFElement::from_xml(&events, &mut pos, Dialect::Current);
    match r {
        Ok(XDFElement::XDFTable(t)) => {
            assert_eq!(t.uid, Some(5));
            assert!(t.axis.is_empty());
        },
        other => panic!("expected a table, got {:?}", other),
    }
    assert_eq!(pos, events.len());
}

#[test]
fn nested_same_name_ignorable() {
    let events = vec![
        open("xdfchecksum", &[]),
        open("xdfchecksum", &[]),
        close("xdfchecksum"),
        close("xdfchecksum"),
        close("marker"),
    ];
    let mut pos: usize = 0;
    let r = XDFElement::from_xml(&events, &mut pos, Dialect::Current);
    assert_eq!(r, Ok(XDFElement::End("marker".to_string())));
    assert_eq!(pos, 5);
}

#[test]
fn dalink_missing_index() {
    let events = vec![open("DALINK", &[]), close("DALINK")];
    let mut pos: usize = 0;
    let r = XDFElement::from_xml(&events, &mut pos, Dialect::Current);
    assert_eq!(r, Err(Error::MissingItem));
}

#[test]
fn dalink_bad_index() {
    let events = vec![open("DALINK", &[("index", "abc")]), close("DALINK")];
    let mut pos: usize = 0;
    let r = XDFElement::from_xml(&events, &mut pos, Dialect::Current);
    assert_eq!(r, Err(Error::BadValue));
}

#[test]
fn dalink_parses() {
    let events = vec![open("DALINK", &[("index", "3")]), close("DALINK")];
    let mut pos: usize = 0;
    let r = XDFElement::from_xml(&events, &mut pos, Dialect::Current);
    assert_eq!(r, Ok(XDFElement::DALink(3)));
}

#[test]
fn var_parses() {
    let events = vec![open("VAR", &[("id", "X")]), close("VAR")];
    let mut pos: usize = 0;
    let r = XDFElement::from_xml(&events, &mut pos, Dialect::Current);
    assert_eq!(r, Ok(XDFElement::Var("X".to_string())));
}

#[test]
fn bad_decimal_leaf() {
    let events = vec![open("decimalpl", &[]), text("abc"), close("decimalpl")];
    let mut pos: usize = 0;
    let r = XDFElement::from_xml(&events, &mut pos, Dialect::Current);
    assert_eq!(r, Err(Error::BadValue));
}

#[test]
fn decimal_leaf_rejects_hex() {
    // Plain-decimal leaves do not take the 0x prefix; dual-base leaves do.
    let events = vec![open("decimalpl", &[]), text("0x2"), close("decimalpl")];
    let mut pos: usize = 0;
    assert_eq!(
        XDFElement::from_xml(&events, &mut pos, Dialect::Current),
        Err(Error::BadValue)
    );
    let events = vec![open("flags", &[]), text("0x2"), close("flags")];
    let mut pos: usize = 0;
    assert_eq!(
        XDFElement::from_xml(&events, &mut pos, Dialect::Current),
        Ok(XDFElement::Flags(2))
    );
}

#[test]
fn min_keeps_float_text() {
    let events = vec![open("min", &[]), text("0.000000"), close("min")];
    let mut pos: usize = 0;
    assert_eq!(
        XDFElement::from_xml(&events, &mut pos, Dialect::Current),
        Ok(XDFElement::Min("0.000000".to_string()))
    );
}

#[test]
fn min_rejects_bad_float() {
    let events = vec![open("min", &[]), text("zero"), close("min")];
    let mut pos: usize = 0;
    assert_eq!(
        XDFElement::from_xml(&events, &mut pos, Dialect::Current),
        Err(Error::BadValue)
    );
}

#[test]
fn math_rejects_stray_child() {
    let events = vec![
        open("MATH", &[("equation", "X")]),
        open("title", &[]),
        text("no"),
        close("title"),
        close("MATH"),
    ];
    let mut pos: usize = 0;
    let r = XDFElement::from_xml(&events, &mut pos, Dialect::Current);
    assert!(matches!(r, Err(Error::UnexpectedElement(XDFElement::Title(_)))));
}

#[test]
fn embedded_data_attrs() {
    let events = vec![
        open(
            "EMBEDDEDDATA",
            &[
                ("mmedtypeflags", "0x02"),
                ("mmedaddress", "0x1EF7E"),
                ("mmedelementsizebits", "16"),
                ("mmedrowcount", "16"),
                ("mmedmajorstridebits", "-32"),
                ("mmedminorstridebits", "0"),
            ],
        ),
        close("EMBEDDEDDATA"),
    ];
    let mut pos: usize = 0;
    let r = XDFElement::from_xml(&events, &mut pos, Dialect::Current);
    match r {
        Ok(XDFElement::EmbeddedData(e)) => {
            // The type-flags attribute is decoded as plain decimal, so a
            // 0x-prefixed value is captured as unspecified.
            assert_eq!(e.mmedtypeflags, None);
            assert_eq!(e.mmedaddress, Some(0x1EF7E));
            assert_eq!(e.mmedelementsizebits, Some(16));
            assert_eq!(e.mmedrowcount, Some(16));
            assert_eq!(e.mmedmajorstridebits, Some(-32));
            assert_eq!(e.mmedminorstridebits, Some(0));
            assert_eq!(e.mmedcolcount, None);
        },
        other => panic!("expected embedded data, got {:?}", other),
    }
}

#[test]
fn baseoffset_from_attr_leaves_spurious_close() {
    // With an offset attribute the element is complete at once; the header
    // builder then ignores the leftover close marker and goes on.
    let events = vec![
        open("xdfheader", &[]),
        open("BASEOFFSET", &[("offset", "0"), ("subtract", "0")]),
        close("BASEOFFSET"),
        open("deftitle", &[]),
        text("T"),
        close("deftitle"),
        close("xdfheader"),
    ];
    let mut pos: usize = 0;
    let r = XDFElement::from_xml(&events, &mut pos, Dialect::Current);
    match r {
        Ok(XDFElement::XDFHeader(h)) => {
            assert_eq!(h.baseoffset, Some(0));
            assert_eq!(h.deftitle, Some("T".to_string()));
        },
        other => panic!("expected a header, got {:?}", other),
    }
}

#[test]
fn baseoffset_from_text() {
    let events = vec![open("BASEOFFSET", &[]), text("0x10"), close("BASEOFFSET")];
    let mut pos: usize = 0;
    assert_eq!(
        XDFElement::from_xml(&events, &mut pos, Dialect::Current),
        Ok(XDFElement::BaseOffset(16))
    );
}

#[test]
fn duplicate_attribute_first_wins() {
    let events = vec![
        open("VAR", &[("id", "X"), ("id", "Y")]),
        close("VAR"),
    ];
    let mut pos: usize = 0;
    assert_eq!(
        XDFElement::from_xml(&events, &mut pos, Dialect::Current),
        Ok(XDFElement::Var("X".to_string()))
    );
}

#[test]
fn axis_labels_keep_document_order() {
    let events = vec![
        open("XDFAXIS", &[("id", "x")]),
        open("LABEL", &[("index", "0"), ("value", "1.00")]),
        close("LABEL"),
        open("LABEL", &[("index", "1"), ("value", "2.00")]),
        close("LABEL"),
        open("LABEL", &[("index", "2"), ("value", "3.00")]),
        close("LABEL"),
        close("XDFAXIS"),
    ];
    let mut pos: usize = 0;
    let r = XDFElement::from_xml(&events, &mut pos, Dialect::Current);
    match r {
        Ok(XDFElement::XDFAxis(a)) => {
            let values: Vec<_> = a.labels.iter().map(|l| l.value.clone().unwrap()).collect();
            assert_eq!(values, vec!["1.00", "2.00", "3.00"]);
            let indices: Vec<_> = a.labels.iter().map(|l| l.index.unwrap()).collect();
            assert_eq!(indices, vec![0, 1, 2]);
        },
        other => panic!("expected an axis, got {:?}", other),
    }
}

#[test]
fn unexpected_event_carries_the_event() {
    let events = vec![text("hi")];
    let mut pos: usize = 0;
    let r = XDFElement::from_xml(&events, &mut pos, Dialect::Current);
    assert_eq!(
        r,
        Err(Error::UnexpectedEvent(Some(Event::Text { content: "hi".to_string() })))
    );
}

#[test]
fn extract_text_error_carries_the_open() {
    let events = vec![open("x", &[("a", "1")]), close("x")];
    let mut pos: usize = 0;
    let r = extract_text(&events, &mut pos);
    match r {
        Err(Error::UnexpectedEvent(Some(Event::TagOpen { name, attrs }))) => {
            assert_eq!(name, "x".to_string());
            assert_eq!(attrs.len(), 1);
            assert_eq!(attrs[0].name, "a".to_string());
            assert_eq!(attrs[0].value, "1".to_string());
        },
        other => panic!("expected the offending open to be carried, got {:?}", other),
    }
}

#[test]
fn attr_only_requires_following_close() {
    // An attribute-only element must be followed by a close marker; a
    // produced element there aborts the parse and is carried in the error.
    let events = vec![
        open("VAR", &[("id", "X")]),
        open("title", &[]),
        text("t"),
        close("title"),
        close("VAR"),
    ];
    let mut pos: usize = 0;
    let r = XDFElement::from_xml(&events, &mut pos, Dialect::Current);
    assert_eq!(
        r,
        Err(Error::UnexpectedElement(XDFElement::Title("t".to_string())))
    );
}

#[test]
fn nested_bad_child_aborts_the_whole_parse() {
    // A disallowed child deep inside a table (an axis inside a header)
    // fails fast with the child carried, and no partial tree comes back.
    let events = vec![
        open("xdfformat", &[("version", "1.60")]),
        open("xdfheader", &[]),
        open("XDFAXIS", &[("id", "x")]),
        close("XDFAXIS"),
        close("xdfheader"),
        close("xdfformat"),
    ];
    let mut pos: usize = 0;
    let r = XDFElement::from_xml(&events, &mut pos, Dialect::Current);
    assert!(matches!(r, Err(Error::UnexpectedElement(XDFElement::XDFAxis(_)))));
}
