//! Routing of collected children into typed composite values.
//!
//! Each composite element is assembled from the children the builder
//! collected, in document order.  A singleton slot keeps the **last**
//! occurrence of its kind; a list slot keeps **every** occurrence in order;
//! the interleaving of kinds does not matter.  These functions state that
//! behavior for arbitrary child sequences, so the routing rule is proved
//! once and for all, not per document.

use vstd::prelude::*;
use crate::data_types::{
    all_of_kind, child_allowed, elem_catmem, elem_category, elem_defaults, elem_embedded,
    elem_embedinfo, elem_header, elem_math, elem_region, elem_str, elem_u32, kind_of,
    last_of_kind, lemma_all_of_kind_push, lemma_last_of_kind_push, Category, CategoryMem,
    Defaults, EmbedInfo, EmbeddedData, Kind, Label, Math, Region, XDFAxis, XDFConstant,
    XDFElement, XDFFormat, XDFHeader, XDFTable,
};

verus! {

/// Assemble a conversion formula from its attribute-derived expression and
/// its collected `Var` children, keeping every variable in document order.
pub fn assemble_math(expression: Option<String>, children: Vec<XDFElement>) -> (m: Math)
    requires
        forall|j: int| 0 <= j < children@.len() ==> child_allowed(
            Kind::Math,
            kind_of(#[trigger] children@[j]),
        ),
    ensures
        m.expression == expression,
        m.vars@.len() == all_of_kind(children@, Kind::Var).len(),
        forall|j: int| 0 <= j < m.vars@.len() ==> XDFElement::Var(#[trigger] m.vars@[j])
            == all_of_kind(children@, Kind::Var)[j],
{
    let ghost all = children@;
    let mut cs = children;
    let mut vars: Vec<String> = Vec::new();
    let ghost mut done: Seq<XDFElement> = Seq::empty();
    while cs.len() > 0
        invariant
            0 <= done.len() <= all.len(),
            cs@ =~= all.subrange(done.len() as int, all.len() as int),
            done =~= all.subrange(0, done.len() as int),
            forall|j: int| 0 <= j < all.len() ==> child_allowed(
                Kind::Math,
                kind_of(#[trigger] all[j]),
            ),
            vars@.len() == all_of_kind(done, Kind::Var).len(),
            forall|j: int| 0 <= j < vars@.len() ==> XDFElement::Var(#[trigger] vars@[j])
                == all_of_kind(done, Kind::Var)[j],
        decreases cs@.len(),
    {
        let ghost d = done.len() as int;
        let e = cs.remove(0);
        let ghost ge = e;
        proof {
            assert(ge == all[d]);
            assert(cs@ =~= all.subrange(d + 1, all.len() as int));
            lemma_all_of_kind_push(done, ge, Kind::Var);
        }
        match e {
            XDFElement::Var(s) => {
                vars.push(s);
            },
            _ => {
                proof {
                    assert(false);
                }
            },
        }
        proof {
            done = done.push(ge);
            assert(done =~= all.subrange(0, d + 1));
        }
    }
    proof {
        assert(done =~= all);
    }
    Math { vars, expression }
}

/// Assemble a header from its collected children.
pub fn assemble_header(children: Vec<XDFElement>) -> (h: XDFHeader)
    requires
        forall|j: int| 0 <= j < children@.len() ==> child_allowed(
            Kind::Header,
            kind_of(#[trigger] children@[j]),
        ),
    ensures
        h.deftitle == elem_str(last_of_kind(children@, Kind::Title)),
        h.description == elem_str(last_of_kind(children@, Kind::Description)),
        h.fileversion == elem_str(last_of_kind(children@, Kind::FileVersion)),
        h.author == elem_str(last_of_kind(children@, Kind::Author)),
        h.baseoffset == elem_u32(last_of_kind(children@, Kind::BaseOffset)),
        h.defaults == elem_defaults(last_of_kind(children@, Kind::Defaults)),
        h.region == elem_region(last_of_kind(children@, Kind::Region)),
        h.flags == elem_u32(last_of_kind(children@, Kind::Flags)),
        h.category == elem_category(last_of_kind(children@, Kind::Category)),
{
    let ghost all = children@;
    let mut cs = children;
    let mut deftitle: Option<String> = None;
    let mut description: Option<String> = None;
    let mut fileversion: Option<String> = None;
    let mut author: Option<String> = None;
    let mut baseoffset: Option<u32> = None;
    let mut defaults: Option<Defaults> = None;
    let mut region: Option<Region> = None;
    let mut flags: Option<u32> = None;
    let mut category: Option<Category> = None;
    let ghost mut done: Seq<XDFElement> = Seq::empty();
    while cs.len() > 0
        invariant
            0 <= done.len() <= all.len(),
            cs@ =~= all.subrange(done.len() as int, all.len() as int),
            done =~= all.subrange(0, done.len() as int),
            forall|j: int| 0 <= j < all.len() ==> child_allowed(
                Kind::Header,
                kind_of(#[trigger] all[j]),
            ),
            deftitle == elem_str(last_of_kind(done, Kind::Title)),
            description == elem_str(last_of_kind(done, Kind::Description)),
            fileversion == elem_str(last_of_kind(done, Kind::FileVersion)),
            author == elem_str(last_of_kind(done, Kind::Author)),
            baseoffset == elem_u32(last_of_kind(done, Kind::BaseOffset)),
            defaults == elem_defaults(last_of_kind(done, Kind::Defaults)),
            region == elem_region(last_of_kind(done, Kind::Region)),
            flags == elem_u32(last_of_kind(done, Kind::Flags)),
            category == elem_category(last_of_kind(done, Kind::Category)),
        decreases cs@.len(),
    {
        let ghost d = done.len() as int;
        let e = cs.remove(0);
        let ghost ge = e;
        proof {
            assert(ge == all[d]);
            assert(cs@ =~= all.subrange(d + 1, all.len() as int));
            lemma_last_of_kind_push(done, ge, Kind::Title);
            lemma_last_of_kind_push(done, ge, Kind::Description);
            lemma_last_of_kind_push(done, ge, Kind::FileVersion);
            lemma_last_of_kind_push(done, ge, Kind::Author);
            lemma_last_of_kind_push(done, ge, Kind::BaseOffset);
            lemma_last_of_kind_push(done, ge, Kind::Defaults);
            lemma_last_of_kind_push(done, ge, Kind::Region);
            lemma_last_of_kind_push(done, ge, Kind::Flags);
            lemma_last_of_kind_push(done, ge, Kind::Category);
        }
        match e {
            XDFElement::Title(s) => {
                deftitle = Some(s);
            },
            XDFElement::Description(s) => {
                description = Some(s);
            },
            XDFElement::FileVersion(s) => {
                fileversion = Some(s);
            },
            XDFElement::Author(s) => {
                author = Some(s);
            },
            XDFElement::BaseOffset(v) => {
                baseoffset = Some(v);
            },
            XDFElement::Defaults(v) => {
                defaults = Some(v);
            },
            XDFElement::Region(v) => {
                region = Some(v);
            },
            XDFElement::Flags(v) => {
                flags = Some(v);
            },
            XDFElement::Category(v) => {
                category = Some(v);
            },
            _ => {
                proof {
                    assert(false);
                }
            },
        }
        proof {
            done = done.push(ge);
            assert(done =~= all.subrange(0, d + 1));
        }
    }
    proof {
        assert(done =~= all);
    }
    XDFHeader {
        deftitle,
        description,
        fileversion,
        author,
        baseoffset,
        defaults,
        region,
        flags,
        category,
    }
}

/// Assemble a table from its attribute-derived unique id and its collected
/// children; the axes keep their document order.
pub fn assemble_table(uid: Option<u32>, children: Vec<XDFElement>) -> (t: XDFTable)
    requires
        forall|j: int| 0 <= j < children@.len() ==> child_allowed(
            Kind::Table,
            kind_of(#[trigger] children@[j]),
        ),
    ensures
        t.uid == uid,
        t.title == elem_str(last_of_kind(children@, Kind::Title)),
        t.flags == elem_u32(last_of_kind(children@, Kind::Flags)),
        t.description == elem_str(last_of_kind(children@, Kind::Description)),
        t.catmem == elem_catmem(last_of_kind(children@, Kind::CategoryMem)),
        t.axis@.len() == all_of_kind(children@, Kind::Axis).len(),
        forall|j: int| 0 <= j < t.axis@.len() ==> XDFElement::XDFAxis(#[trigger] t.axis@[j])
            == all_of_kind(children@, Kind::Axis)[j],
{
    let ghost all = children@;
    let mut cs = children;
    let mut title: Option<String> = None;
    let mut flags: Option<u32> = None;
    let mut description: Option<String> = None;
    let mut catmem: Option<CategoryMem> = None;
    let mut axis: Vec<XDFAxis> = Vec::new();
    let ghost mut done: Seq<XDFElement> = Seq::empty();
    while cs.len() > 0
        invariant
            0 <= done.len() <= all.len(),
            cs@ =~= all.subrange(done.len() as int, all.len() as int),
            done =~= all.subrange(0, done.len() as int),
            forall|j: int| 0 <= j < all.len() ==> child_allowed(
                Kind::Table,
                kind_of(#[trigger] all[j]),
            ),
            title == elem_str(last_of_kind(done, Kind::Title)),
            flags == elem_u32(last_of_kind(done, Kind::Flags)),
            description == elem_str(last_of_kind(done, Kind::Description)),
            catmem == elem_catmem(last_of_kind(done, Kind::CategoryMem)),
            axis@.len() == all_of_kind(done, Kind::Axis).len(),
            forall|j: int| 0 <= j < axis@.len() ==> XDFElement::XDFAxis(#[trigger] axis@[j])
                == all_of_kind(done, Kind::Axis)[j],
        decreases cs@.len(),
    {
        let ghost d = done.len() as int;
        let e = cs.remove(0);
        let ghost ge = e;
        proof {
            assert(ge == all[d]);
            assert(cs@ =~= all.subrange(d + 1, all.len() as int));
            lemma_last_of_kind_push(done, ge, Kind::Title);
            lemma_last_of_kind_push(done, ge, Kind::Flags);
            lemma_last_of_kind_push(done, ge, Kind::Description);
            lemma_last_of_kind_push(done, ge, Kind::CategoryMem);
            lemma_all_of_kind_push(done, ge, Kind::Axis);
        }
        match e {
            XDFElement::Title(s) => {
                title = Some(s);
            },
            XDFElement::Flags(v) => {
                flags = Some(v);
            },
            XDFElement::Description(s) => {
                description = Some(s);
            },
            XDFElement::CategoryMem(v) => {
                catmem = Some(v);
            },
            XDFElement::XDFAxis(a) => {
                axis.push(a);
            },
            _ => {
                proof {
                    assert(false);
                }
            },
        }
        proof {
            done = done.push(ge);
            assert(done =~= all.subrange(0, d + 1));
        }
    }
    proof {
        assert(done =~= all);
    }
    XDFTable { title, uid, flags, catmem, description, axis }
}

/// Assemble an axis from its attribute-derived identity and its collected
/// children; the labels keep their document order.
pub fn assemble_axis(id: Option<String>, uid: Option<u32>, children: Vec<XDFElement>) -> (a:
    XDFAxis)
    requires
        forall|j: int| 0 <= j < children@.len() ==> child_allowed(
            Kind::Axis,
            kind_of(#[trigger] children@[j]),
        ),
    ensures
        a.id == id,
        a.uid == uid,
        a.embeddeddata == elem_embedded(last_of_kind(children@, Kind::EmbeddedData)),
        a.datatype == elem_u32(last_of_kind(children@, Kind::DataType)),
        a.unittype == elem_u32(last_of_kind(children@, Kind::UnitType)),
        a.dalink_index == elem_u32(last_of_kind(children@, Kind::DALink)),
        a.math == elem_math(last_of_kind(children@, Kind::Math)),
        a.count == elem_u32(last_of_kind(children@, Kind::IndexCount)),
        a.min == elem_str(last_of_kind(children@, Kind::Min)),
        a.max == elem_str(last_of_kind(children@, Kind::Max)),
        a.outputtype == elem_u32(last_of_kind(children@, Kind::OutputType)),
        a.decimalplaces == elem_u32(last_of_kind(children@, Kind::DecimalPl)),
        a.unit == elem_str(last_of_kind(children@, Kind::Units)),
        a.embedinfo == elem_embedinfo(last_of_kind(children@, Kind::EmbedInfo)),
        a.labels@.len() == all_of_kind(children@, Kind::Label).len(),
        forall|j: int| 0 <= j < a.labels@.len() ==> XDFElement::Label(#[trigger] a.labels@[j])
            == all_of_kind(children@, Kind::Label)[j],
{
    let ghost all = children@;
    let mut cs = children;
    let mut embeddeddata: Option<EmbeddedData> = None;
    let mut datatype: Option<u32> = None;
    let mut unittype: Option<u32> = None;
    let mut dalink_index: Option<u32> = None;
    let mut math: Option<Math> = None;
    let mut count: Option<u32> = None;
    let mut min: Option<String> = None;
    let mut max: Option<String> = None;
    let mut outputtype: Option<u32> = None;
    let mut decimalplaces: Option<u32> = None;
    let mut unit: Option<String> = None;
    let mut embedinfo: Option<EmbedInfo> = None;
    let mut labels: Vec<Label> = Vec::new();
    let ghost mut done: Seq<XDFElement> = Seq::empty();
    while cs.len() > 0
        invariant
            0 <= done.len() <= all.len(),
            cs@ =~= all.subrange(done.len() as int, all.len() as int),
            done =~= all.subrange(0, done.len() as int),
            forall|j: int| 0 <= j < all.len() ==> child_allowed(
                Kind::Axis,
                kind_of(#[trigger] all[j]),
            ),
            embeddeddata == elem_embedded(last_of_kind(done, Kind::EmbeddedData)),
            datatype == elem_u32(last_of_kind(done, Kind::DataType)),
            unittype == elem_u32(last_of_kind(done, Kind::UnitType)),
            dalink_index == elem_u32(last_of_kind(done, Kind::DALink)),
            math == elem_math(last_of_kind(done, Kind::Math)),
            count == elem_u32(last_of_kind(done, Kind::IndexCount)),
            min == elem_str(last_of_kind(done, Kind::Min)),
            max == elem_str(last_of_kind(done, Kind::Max)),
            outputtype == elem_u32(last_of_kind(done, Kind::OutputType)),
            decimalplaces == elem_u32(last_of_kind(done, Kind::DecimalPl)),
            unit == elem_str(last_of_kind(done, Kind::Units)),
            embedinfo == elem_embedinfo(last_of_kind(done, Kind::EmbedInfo)),
            labels@.len() == all_of_kind(done, Kind::Label).len(),
            forall|j: int| 0 <= j < labels@.len() ==> XDFElement::Label(#[trigger] labels@[j])
                == all_of_kind(done, Kind::Label)[j],
        decreases cs@.len(),
    {
        let ghost d = done.len() as int;
        let e = cs.remove(0);
        let ghost ge = e;
        proof {
            assert(ge == all[d]);
            assert(cs@ =~= all.subrange(d + 1, all.len() as int));
            lemma_last_of_kind_push(done, ge, Kind::EmbeddedData);
            lemma_last_of_kind_push(done, ge, Kind::DataType);
            lemma_last_of_kind_push(done, ge, Kind::UnitType);
            lemma_last_of_kind_push(done, ge, Kind::DALink);
            lemma_last_of_kind_push(done, ge, Kind::Math);
            lemma_last_of_kind_push(done, ge, Kind::IndexCount);
            lemma_last_of_kind_push(done, ge, Kind::Min);
            lemma_last_of_kind_push(done, ge, Kind::Max);
            lemma_last_of_kind_push(done, ge, Kind::OutputType);
            lemma_last_of_kind_push(done, ge, Kind::DecimalPl);
            lemma_last_of_kind_push(done, ge, Kind::Units);
            lemma_last_of_kind_push(done, ge, Kind::EmbedInfo);
            lemma_all_of_kind_push(done, ge, Kind::Label);
        }
        match e {
            XDFElement::EmbeddedData(v) => {
                embeddeddata = Some(v);
            },
            XDFElement::DataType(v) => {
                datatype = Some(v);
            },
            XDFElement::UnitType(v) => {
                unittype = Some(v);
            },
            XDFElement::DALink(v) => {
                dalink_index = Some(v);
            },
            XDFElement::Math(v) => {
                math = Some(v);
            },
            XDFElement::IndexCount(v) => {
                count = Some(v);
            },
            XDFElement::Min(s) => {
                min = Some(s);
            },
            XDFElement::Max(s) => {
                max = Some(s);
            },
            XDFElement::OutputType(v) => {
                outputtype = Some(v);
            },
            XDFElement::DecimalPl(v) => {
                decimalplaces = Some(v);
            },
            XDFElement::Units(s) => {
                unit = Some(s);
            },
            XDFElement::EmbedInfo(v) => {
                embedinfo = Some(v);
            },
            XDFElement::Label(v) => {
                labels.push(v);
            },
            _ => {
                proof {
                    assert(false);
                }
            },
        }
        proof {
            done = done.push(ge);
            assert(done =~= all.subrange(0, d + 1));
        }
    }
    proof {
        assert(done =~= all);
    }
    XDFAxis {
        id,
        uid,
        embeddeddata,
        datatype,
        unittype,
        dalink_index,
        math,
        count,
        labels,
        min,
        max,
        outputtype,
        decimalplaces,
        unit,
        embedinfo,
    }
}

/// Assemble a constant from its attribute-derived unique id and its
/// collected children.
pub fn assemble_constant(uid: Option<String>, children: Vec<XDFElement>) -> (c: XDFConstant)
    requires
        forall|j: int| 0 <= j < children@.len() ==> child_allowed(
            Kind::Constant,
            kind_of(#[trigger] children@[j]),
        ),
    ensures
        c.uid == uid,
        c.title == elem_str(last_of_kind(children@, Kind::Title)),
        c.description == elem_str(last_of_kind(children@, Kind::Description)),
        c.catmem == elem_catmem(last_of_kind(children@, Kind::CategoryMem)),
        c.embedded_data == elem_embedded(last_of_kind(children@, Kind::EmbeddedData)),
        c.decimalplaces == elem_u32(last_of_kind(children@, Kind::DecimalPl)),
        c.datatype == elem_u32(last_of_kind(children@, Kind::DataType)),
        c.unittype == elem_u32(last_of_kind(children@, Kind::UnitType)),
        c.outputtype == elem_u32(last_of_kind(children@, Kind::OutputType)),
        c.unit == elem_str(last_of_kind(children@, Kind::Units)),
        c.dalink_index == elem_u32(last_of_kind(children@, Kind::DALink)),
        c.math == elem_math(last_of_kind(children@, Kind::Math)),
{
    let ghost all = children@;
    let mut cs = children;
    let mut title: Option<String> = None;
    let mut description: Option<String> = None;
    let mut catmem: Option<CategoryMem> = None;
    let mut embedded_data: Option<EmbeddedData> = None;
    let mut decimalplaces: Option<u32> = None;
    let mut datatype: Option<u32> = None;
    let mut unittype: Option<u32> = None;
    let mut outputtype: Option<u32> = None;
    let mut unit: Option<String> = None;
    let mut dalink_index: Option<u32> = None;
    let mut math: Option<Math> = None;
    let ghost mut done: Seq<XDFElement> = Seq::empty();
    while cs.len() > 0
        invariant
            0 <= done.len() <= all.len(),
            cs@ =~= all.subrange(done.len() as int, all.len() as int),
            done =~= all.subrange(0, done.len() as int),
            forall|j: int| 0 <= j < all.len() ==> child_allowed(
                Kind::Constant,
                kind_of(#[trigger] all[j]),
            ),
            title == elem_str(last_of_kind(done, Kind::Title)),
            description == elem_str(last_of_kind(done, Kind::Description)),
            catmem == elem_catmem(last_of_kind(done, Kind::CategoryMem)),
            embedded_data == elem_embedded(last_of_kind(done, Kind::EmbeddedData)),
            decimalplaces == elem_u32(last_of_kind(done, Kind::DecimalPl)),
            datatype == elem_u32(last_of_kind(done, Kind::DataType)),
            unittype == elem_u32(last_of_kind(done, Kind::UnitType)),
            outputtype == elem_u32(last_of_kind(done, Kind::OutputType)),
            unit == elem_str(last_of_kind(done, Kind::Units)),
            dalink_index == elem_u32(last_of_kind(done, Kind::DALink)),
            math == elem_math(last_of_kind(done, Kind::Math)),
        decreases cs@.len(),
    {
        let ghost d = done.len() as int;
        let e = cs.remove(0);
        let ghost ge = e;
        proof {
            assert(ge == all[d]);
            assert(cs@ =~= all.subrange(d + 1, all.len() as int));
            lemma_last_of_kind_push(done, ge, Kind::Title);
            lemma_last_of_kind_push(done, ge, Kind::Description);
            lemma_last_of_kind_push(done, ge, Kind::CategoryMem);
            lemma_last_of_kind_push(done, ge, Kind::EmbeddedData);
            lemma_last_of_kind_push(done, ge, Kind::DecimalPl);
            lemma_last_of_kind_push(done, ge, Kind::DataType);
            lemma_last_of_kind_push(done, ge, Kind::UnitType);
            lemma_last_of_kind_push(done, ge, Kind::OutputType);
            lemma_last_of_kind_push(done, ge, Kind::Units);
            lemma_last_of_kind_push(done, ge, Kind::DALink);
            lemma_last_of_kind_push(done, ge, Kind::Math);
        }
        match e {
            XDFElement::Title(s) => {
                title = Some(s);
            },
            XDFElement::Description(s) => {
                description = Some(s);
            },
            XDFElement::CategoryMem(v) => {
                catmem = Some(v);
            },
            XDFElement::EmbeddedData(v) => {
                embedded_data = Some(v);
            },
            XDFElement::DecimalPl(v) => {
                decimalplaces = Some(v);
            },
            XDFElement::DataType(v) => {
                datatype = Some(v);
            },
            XDFElement::UnitType(v) => {
                unittype = Some(v);
            },
            XDFElement::OutputType(v) => {
                outputtype = Some(v);
            },
            XDFElement::Units(s) => {
                unit = Some(s);
            },
            XDFElement::DALink(v) => {
                dalink_index = Some(v);
            },
            XDFElement::Math(v) => {
                math = Some(v);
            },
            _ => {
                proof {
                    assert(false);
                }
            },
        }
        proof {
            done = done.push(ge);
            assert(done =~= all.subrange(0, d + 1));
        }
    }
    proof {
        assert(done =~= all);
    }
    XDFConstant {
        title,
        description,
        catmem,
        uid,
        embedded_data,
        decimalplaces,
        datatype,
        unittype,
        outputtype,
        unit,
        dalink_index,
        math,
    }
}

/// Assemble the document root from its attribute-derived version and its
/// collected children; constants and tables keep their document order.
pub fn assemble_format(version: Option<String>, children: Vec<XDFElement>) -> (f: XDFFormat)
    requires
        forall|j: int| 0 <= j < children@.len() ==> child_allowed(
            Kind::Format,
            kind_of(#[trigger] children@[j]),
        ),
    ensures
        f.version == version,
        f.header == elem_header(last_of_kind(children@, Kind::Header)),
        f.tables@.len() == all_of_kind(children@, Kind::Table).len(),
        forall|j: int| 0 <= j < f.tables@.len() ==> XDFElement::XDFTable(#[trigger] f.tables@[j])
            == all_of_kind(children@, Kind::Table)[j],
        f.constants@.len() == all_of_kind(children@, Kind::Constant).len(),
        forall|j: int| 0 <= j < f.constants@.len() ==> XDFElement::XDFConstant(
            #[trigger] f.constants@[j],
        ) == all_of_kind(children@, Kind::Constant)[j],
{
    let ghost all = children@;
    let mut cs = children;
    let mut header: Option<XDFHeader> = None;
    let mut tables: Vec<XDFTable> = Vec::new();
    let mut constants: Vec<XDFConstant> = Vec::new();
    let ghost mut done: Seq<XDFElement> = Seq::empty();
    while cs.len() > 0
        invariant
            0 <= done.len() <= all.len(),
            cs@ =~= all.subrange(done.len() as int, all.len() as int),
            done =~= all.subrange(0, done.len() as int),
            forall|j: int| 0 <= j < all.len() ==> child_allowed(
                Kind::Format,
                kind_of(#[trigger] all[j]),
            ),
            header == elem_header(last_of_kind(done, Kind::Header)),
            tables@.len() == all_of_kind(done, Kind::Table).len(),
            forall|j: int| 0 <= j < tables@.len() ==> XDFElement::XDFTable(#[trigger] tables@[j])
                == all_of_kind(done, Kind::Table)[j],
            constants@.len() == all_of_kind(done, Kind::Constant).len(),
            forall|j: int| 0 <= j < constants@.len() ==> XDFElement::XDFConstant(
                #[trigger] constants@[j],
            ) == all_of_kind(done, Kind::Constant)[j],
        decreases cs@.len(),
    {
        let ghost d = done.len() as int;
        let e = cs.remove(0);
        let ghost ge = e;
        proof {
            assert(ge == all[d]);
            assert(cs@ =~= all.subrange(d + 1, all.len() as int));
            lemma_last_of_kind_push(done, ge, Kind::Header);
            lemma_all_of_kind_push(done, ge, Kind::Table);
            lemma_all_of_kind_push(done, ge, Kind::Constant);
        }
        match e {
            XDFElement::XDFHeader(v) => {
                header = Some(v);
            },
            XDFElement::XDFTable(v) => {
                tables.push(v);
            },
            XDFElement::XDFConstant(v) => {
                constants.push(v);
            },
            _ => {
                proof {
                    assert(false);
                }
            },
        }
        proof {
            done = done.push(ge);
            assert(done =~= all.subrange(0, d + 1));
        }
    }
    proof {
        assert(done =~= all);
    }
    XDFFormat { version, tables, constants, header }
}

} // verus!
