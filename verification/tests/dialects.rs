use xdftuneparser::data_types::{Kind, XDFElement};
use xdftuneparser::dialect::{resolve_tag, Dialect};
use xdftuneparser::error::Error;
use xdftuneparser::events::Event;
use xdftuneparser::reader::parse_buffer_with;

fn open(name: &str) -> Event {
    Event::TagOpen { name: name.to_string(), attrs: Vec::new() }
}

fn close(name: &str) -> Event {
    Event::TagClose { name: name.to_string() }
}

#[test]
fn current_dialect_folds_case() {
    assert_eq!(resolve_tag("XDFTABLE", Dialect::Current), Some(Kind::Table));
    assert_eq!(resolve_tag("xdftable", Dialect::Current), Some(Kind::Table));
    assert_eq!(resolve_tag("XdFtAbLe", Dialect::Current), Some(Kind::Table));
}

#[test]
fn legacy_dialect_is_exact() {
    assert_eq!(resolve_tag("XDFTABLE", Dialect::Legacy), Some(Kind::Table));
    assert_eq!(resolve_tag("xdftable", Dialect::Legacy), None);
    assert_eq!(resolve_tag("XdFtAbLe", Dialect::Legacy), None);
}

#[test]
fn legacy_leaves_are_lower_case() {
    assert_eq!(resolve_tag("title", Dialect::Legacy), Some(Kind::Title));
    assert_eq!(resolve_tag("TITLE", Dialect::Legacy), None);
    assert_eq!(resolve_tag("TITLE", Dialect::Current), Some(Kind::Title));
}

#[test]
fn mixed_case_open_with_folded_close() {
    let events = vec![open("XdFtAbLe"), close("XDFTABLE")];
    let mut pos: usize = 0;
    let r = XDFElement::from_xml(&events, &mut pos, Dialect::Current);
    assert!(matches!(r, Ok(XDFElement::XDFTable(_))));
}

#[test]
fn mixed_case_open_fails_under_legacy() {
    let events = vec![open("XdFtAbLe"), close("XDFTABLE")];
    let mut pos: usize = 0;
    let r = XDFElement::from_xml(&events, &mut pos, Dialect::Legacy);
    assert_eq!(r, Err(Error::UnknownType));
}

#[test]
fn legacy_table_parses_end_to_end() {
    let doc = "<XDFTABLE uniqueid=\"0x2\"><title>Legacy</title></XDFTABLE>";
    let r = parse_buffer_with(doc.as_bytes(), Dialect::Legacy);
    match r {
        Ok(XDFElement::XDFTable(t)) => {
            assert_eq!(t.uid, Some(2));
            assert_eq!(t.title, Some("Legacy".to_string()));
        },
        other => panic!("expected a table, got {:?}", other),
    }
}
