use xdftuneparser::data_types::{Math, XDFElement};
use xdftuneparser::reader::parse_buffer;

#[test]
fn table_with_three_axes() {
    // A table with axes x, y, z in that order; the z axis carries storage
    // metadata and an unevaluated conversion expression.
    let doc = "\
<XDFTABLE uniqueid=\"0x14DAE\" flags=\"0x0\">\
  <title>TVUB</title>\
  <XDFAXIS id=\"x\" uniqueid=\"0x0\">\
    <indexcount>1</indexcount>\
    <datatype>0</datatype>\
    <DALINK index=\"0\" />\
    <LABEL index=\"0\" value=\"0.00\" />\
  </XDFAXIS>\
  <XDFAXIS id=\"y\" uniqueid=\"0x0\">\
    <indexcount>5</indexcount>\
    <embedinfo type=\"3\" linkobjid=\"0x14DA9\" />\
  </XDFAXIS>\
  <XDFAXIS id=\"z\">\
    <EMBEDDEDDATA mmedaddress=\"0x14DAE\" mmedelementsizebits=\"16\" mmedrowcount=\"5\" mmedmajorstridebits=\"0\" mmedminorstridebits=\"0\" />\
    <decimalpl>2</decimalpl>\
    <min>0.000000</min>\
    <max>255.000000</max>\
    <outputtype>1</outputtype>\
    <MATH equation=\"0.000000+X*0.002667\">\
      <VAR id=\"X\" />\
    </MATH>\
  </XDFAXIS>\
</XDFTABLE>";
    let r = parse_buffer(doc.as_bytes()).expect("parse should succeed");
    let t = match r {
        XDFElement::XDFTable(t) => t,
        other => panic!("expected a table, got {:?}", other),
    };
    assert_eq!(t.uid, Some(0x14DAE));
    assert_eq!(t.title, Some("TVUB".to_string()));
    assert_eq!(t.axis.len(), 3);
    assert_eq!(t.axis[0].id, Some("x".to_string()));
    assert_eq!(t.axis[1].id, Some("y".to_string()));
    assert_eq!(t.axis[2].id, Some("z".to_string()));

    assert_eq!(t.axis[0].count, Some(1));
    assert_eq!(t.axis[0].dalink_index, Some(0));
    assert_eq!(t.axis[0].labels.len(), 1);
    assert_eq!(t.axis[0].labels[0].value, Some("0.00".to_string()));

    let ei = t.axis[1].embedinfo.expect("embed info should be set");
    assert_eq!(ei.etype, Some(3));
    assert_eq!(ei.linkobjid, Some(0x14DA9));

    let z = &t.axis[2];
    let ed = z.embeddeddata.expect("embedded data should be set");
    assert_eq!(ed.mmedaddress, Some(0x14DAE));
    assert_eq!(ed.mmedelementsizebits, Some(16));
    assert_eq!(ed.mmedrowcount, Some(5));
    assert_eq!(z.decimalplaces, Some(2));
    assert_eq!(z.min, Some("0.000000".to_string()));
    assert_eq!(z.max, Some("255.000000".to_string()));
    assert_eq!(z.outputtype, Some(1));
    assert_eq!(
        z.math,
        Some(Math {
            vars: vec!["X".to_string()],
            expression: Some("0.000000+X*0.002667".to_string()),
        })
    );
}

#[test]
fn whole_document_parses() {
    let doc = "\
<?xml version=\"1.0\"?>\
<XDFFORMAT version=\"1.60\">\
  <XDFHEADER>\
    <deftitle>Demo</deftitle>\
    <author>nobody</author>\
    <BASEOFFSET offset=\"0\" subtract=\"0\" />\
    <DEFAULTS datasizeinbits=\"8\" sigdigits=\"2\" outputtype=\"1\" signed=\"0\" lsbfirst=\"0\" float=\"0\" />\
    <REGION type=\"0xFFFFFFFF\" startaddress=\"0x0\" size=\"0x100000\" regionflags=\"0x0\" />\
    <CATEGORY index=\"0x0\" name=\"Fueling\" />\
  </XDFHEADER>\
  <XDFCONSTANT uniqueid=\"0x3BFE\">\
    <title>CDTES</title>\
    <CATEGORYMEM index=\"0\" category=\"27\" />\
    <EMBEDDEDDATA mmedaddress=\"0x181B2\" mmedelementsizebits=\"8\" mmedmajorstridebits=\"0\" mmedminorstridebits=\"0\" />\
    <datatype>0</datatype>\
    <unittype>0</unittype>\
    <DALINK index=\"0\" />\
    <MATH equation=\"X\">\
      <VAR id=\"X\" />\
    </MATH>\
  </XDFCONSTANT>\
  <XDFTABLE uniqueid=\"0x1\">\
    <title>T</title>\
  </XDFTABLE>\
</XDFFORMAT>";
    let r = parse_buffer(doc.as_bytes()).expect("parse should succeed");
    let f = match r {
        XDFElement::XDFFormat(f) => f,
        other => panic!("expected the document root, got {:?}", other),
    };
    assert_eq!(f.version, Some("1.60".to_string()));
    let h = f.header.expect("header should be set");
    assert_eq!(h.deftitle, Some("Demo".to_string()));
    assert_eq!(h.author, Some("nobody".to_string()));
    assert_eq!(h.baseoffset, Some(0));
    let defaults = h.defaults.expect("defaults should be set");
    assert_eq!(defaults.datasizeinbits, Some(8));
    let region = h.region.expect("region should be set");
    assert_eq!(region.size, Some(0x100000));
    let cat = h.category.expect("category should be set");
    assert_eq!(cat.name, Some("Fueling".to_string()));

    assert_eq!(f.constants.len(), 1);
    let c = &f.constants[0];
    assert_eq!(c.uid, Some("0x3BFE".to_string()));
    assert_eq!(c.title, Some("CDTES".to_string()));
    let cm = c.catmem.expect("category placement should be set");
    assert_eq!(cm.category, Some(27));
    assert_eq!(c.dalink_index, Some(0));
    assert_eq!(
        c.math,
        Some(Math { vars: vec!["X".to_string()], expression: Some("X".to_string()) })
    );

    assert_eq!(f.tables.len(), 1);
    assert_eq!(f.tables[0].title, Some("T".to_string()));
}

#[test]
fn comments_and_whitespace_are_invisible() {
    let doc = "<title><!-- not data -->Foo</title>";
    let r = parse_buffer(doc.as_bytes()).expect("parse should succeed");
    assert_eq!(r, XDFElement::Title("Foo".to_string()));
}

#[test]
fn empty_title_is_not_an_error() {
    let doc = "<title></title>";
    let r = parse_buffer(doc.as_bytes()).expect("parse should succeed");
    assert_eq!(r, XDFElement::Title(String::new()));
}

#[test]
fn malformed_markup_is_a_tokenizer_error() {
    let doc = "<title>Foo";
    let r = parse_buffer(doc.as_bytes());
    assert!(matches!(
        r,
        Err(xdftuneparser::error::Error::XmlError(_))
    ));
}
