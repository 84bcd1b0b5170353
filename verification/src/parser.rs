//! The element dispatcher and the generic object builder.
//!
//! The dispatcher reads the next logical element from a cursor over the
//! event stream: it skips a leading document boundary, skips ignorable
//! containers wholesale, resolves a tag-open against the active dialect's
//! table, and either decodes a leaf value, builds a composite by collecting
//! its children recursively, or returns a close marker.  Failure is
//! fail-fast: the first violation aborts the whole parse.

use vstd::prelude::*;
use crate::assemble::{
    assemble_axis, assemble_constant, assemble_format, assemble_header, assemble_math,
    assemble_table,
};
use crate::data_types::{
    child_allowed, child_allowed_x, elem_str, elem_u32, kind_of, Category, CategoryMem, Defaults,
    EmbedInfo, EmbeddedData, Kind, Label, Region, XDFElement,
};
use crate::decode::{
    dec_i32_of, dec_u32_of, int_u32_of, is_float_text, is_float_literal, parse_dec_i32,
    parse_dec_u32, parse_int_opt,
};
use crate::dialect::{resolve_spec, resolve_tag, Dialect};
use crate::error::Error;
use crate::events::{attr_val, clone_attrs, event_like, get_attr, Attr, Event};

verus! {

/// What consuming a leaf tag's text yields: the content and the cursor
/// position after it, or nothing when the event shape is wrong.
pub open spec fn text_result(events: Seq<Event>, pos: int) -> Option<(Seq<char>, int)> {
    if 0 <= pos < events.len() {
        match events[pos] {
            Event::Text { content } => if pos + 1 < events.len() {
                Some((content@, pos + 2))
            } else {
                None
            },
            Event::TagClose { .. } => Some((Seq::empty(), pos + 1)),
            _ => None,
        }
    } else {
        None
    }
}

/// Position just after the close that matches an open at nesting depth
/// `depth`, scanning from `pos`; the stream length if it runs out.
pub open spec fn skip_end(events: Seq<Event>, pos: int, depth: int) -> int
    decreases events.len() - pos,
    when 0 <= pos <= events.len() && depth >= 1
{
    if pos >= events.len() {
        pos
    } else {
        match events[pos] {
            Event::TagOpen { .. } => skip_end(events, pos + 1, depth + 1),
            Event::TagClose { .. } => if depth == 1 {
                pos + 1
            } else {
                skip_end(events, pos + 1, depth - 1)
            },
            _ => skip_end(events, pos + 1, depth),
        }
    }
}

pub proof fn lemma_skip_end_bounds(events: Seq<Event>, pos: int, depth: int)
    requires
        0 <= pos <= events.len(),
        depth >= 1,
    ensures
        pos <= skip_end(events, pos, depth) <= events.len(),
    decreases events.len() - pos,
{
    if pos < events.len() {
        match events[pos] {
            Event::TagOpen { .. } => {
                lemma_skip_end_bounds(events, pos + 1, depth + 1);
            },
            Event::TagClose { .. } => {
                if depth != 1 {
                    lemma_skip_end_bounds(events, pos + 1, depth - 1);
                }
            },
            _ => {
                lemma_skip_end_bounds(events, pos + 1, depth);
            },
        }
    }
}

/// Where the dispatcher actually acts: the first position at or after `pos`
/// that is neither a document-start boundary nor inside an ignorable
/// container recognized by the active dialect.
pub open spec fn dispatch_pos(events: Seq<Event>, pos: int, d: Dialect) -> int
    decreases events.len() - pos,
    when 0 <= pos <= events.len()
{
    if pos >= events.len() {
        pos
    } else {
        match events[pos] {
            Event::DocStart => dispatch_pos(events, pos + 1, d),
            Event::TagOpen { name, .. } => if resolve_spec(name@, d) == Some(Kind::Skip) {
                proof {
                    lemma_skip_end_bounds(events, pos + 1, 1);
                }
                dispatch_pos(events, skip_end(events, pos + 1, 1), d)
            } else {
                pos
            },
            _ => pos,
        }
    }
}

pub proof fn lemma_dispatch_pos_bounds(events: Seq<Event>, pos: int, d: Dialect)
    requires
        0 <= pos <= events.len(),
    ensures
        pos <= dispatch_pos(events, pos, d) <= events.len(),
    decreases events.len() - pos,
{
    if pos < events.len() {
        match events[pos] {
            Event::DocStart => {
                lemma_dispatch_pos_bounds(events, pos + 1, d);
            },
            Event::TagOpen { name, .. } => {
                if resolve_spec(name@, d) == Some(Kind::Skip) {
                    lemma_skip_end_bounds(events, pos + 1, 1);
                    lemma_dispatch_pos_bounds(events, skip_end(events, pos + 1, 1), d);
                }
            },
            _ => {
            },
        }
    }
}

/// A named attribute decoded with the dual-base integer grammar, absence
/// and a failed decode both collapsing to `None`.
pub open spec fn attr_int(attrs: Seq<Attr>, name: Seq<char>) -> Option<u32> {
    match attr_val(attrs, name) {
        Some(v) => int_u32_of(v),
        None => None,
    }
}

/// A named attribute decoded as plain decimal, absence and a failed decode
/// both collapsing to `None`.
pub open spec fn attr_dec_u32(attrs: Seq<Attr>, name: Seq<char>) -> Option<u32> {
    match attr_val(attrs, name) {
        Some(v) => dec_u32_of(v),
        None => None,
    }
}

/// A named attribute decoded as signed decimal, absence and a failed decode
/// both collapsing to `None`.
pub open spec fn attr_dec_i32(attrs: Seq<Attr>, name: Seq<char>) -> Option<i32> {
    match attr_val(attrs, name) {
        Some(v) => dec_i32_of(v),
        None => None,
    }
}

/// An optional owned string holding exactly the given optional text.
pub open spec fn opt_str_is(o: Option<String>, v: Option<Seq<char>>) -> bool {
    match o {
        Some(s) => v matches Some(t) && s@ == t,
        None => v is None,
    }
}

pub open spec fn region_ok(r: Region, attrs: Seq<Attr>) -> bool {
    &&& r.rtype == attr_int(attrs, "type"@)
    &&& r.startaddress == attr_int(attrs, "startaddress"@)
    &&& r.size == attr_int(attrs, "size"@)
    &&& r.regionflags == attr_int(attrs, "regionflags"@)
}

pub open spec fn defaults_ok(r: Defaults, attrs: Seq<Attr>) -> bool {
    &&& r.datasizeinbits == attr_int(attrs, "datasizeinbits"@)
    &&& r.sigdigits == attr_int(attrs, "sigdigits"@)
    &&& r.outputtype == attr_int(attrs, "outputtype"@)
    &&& r.signed == attr_int(attrs, "signed"@)
    &&& r.lsbfirst == attr_int(attrs, "lsbfirst"@)
    &&& r.float == attr_int(attrs, "float"@)
}

pub open spec fn category_ok(r: Category, attrs: Seq<Attr>) -> bool {
    &&& r.index == attr_int(attrs, "index"@)
    &&& opt_str_is(r.name, attr_val(attrs, "name"@))
}

pub open spec fn catmem_ok(r: CategoryMem, attrs: Seq<Attr>) -> bool {
    &&& r.index == attr_dec_u32(attrs, "index"@)
    &&& r.category == attr_dec_u32(attrs, "category"@)
}

pub open spec fn embedded_ok(r: EmbeddedData, attrs: Seq<Attr>) -> bool {
    &&& r.mmedaddress == attr_int(attrs, "mmedaddress"@)
    &&& r.mmedelementsizebits == attr_dec_u32(attrs, "mmedelementsizebits"@)
    &&& r.mmedmajorstridebits == attr_dec_i32(attrs, "mmedmajorstridebits"@)
    &&& r.mmedminorstridebits == attr_dec_i32(attrs, "mmedminorstridebits"@)
    &&& r.mmedtypeflags == attr_dec_u32(attrs, "mmedtypeflags"@)
    &&& r.mmedrowcount == attr_dec_u32(attrs, "mmedrowcount"@)
    &&& r.mmedcolcount == attr_dec_u32(attrs, "mmedcolcount"@)
}

pub open spec fn label_ok(r: Label, attrs: Seq<Attr>) -> bool {
    &&& r.index == attr_dec_u32(attrs, "index"@)
    &&& opt_str_is(r.value, attr_val(attrs, "value"@))
}

pub open spec fn embedinfo_ok(r: EmbedInfo, attrs: Seq<Attr>) -> bool {
    &&& r.etype == attr_int(attrs, "type"@)
    &&& r.linkobjid == attr_int(attrs, "linkobjid"@)
}

/// Outcome of a string-valued leaf tag dispatched at `i`.
pub open spec fn str_leaf_post(
    events: Seq<Event>,
    i: int,
    k: Kind,
    r: Result<XDFElement, Error>,
    p2: int,
) -> bool {
    match text_result(events, i + 1) {
        Some(p) => {
            &&& r matches Ok(e)
            &&& kind_of(e) == k
            &&& elem_str(Some(e)) matches Some(s)
            &&& s@ == p.0
            &&& p2 == p.1
        },
        None => r matches Err(e) && (e matches Error::UnexpectedEvent(_)),
    }
}

/// Outcome of a float-valued leaf tag dispatched at `i`: the text must read
/// as a float literal and is kept verbatim.
pub open spec fn float_leaf_post(
    events: Seq<Event>,
    i: int,
    k: Kind,
    r: Result<XDFElement, Error>,
    p2: int,
) -> bool {
    match text_result(events, i + 1) {
        Some(p) => if is_float_text(p.0) {
            &&& r matches Ok(e)
            &&& kind_of(e) == k
            &&& elem_str(Some(e)) matches Some(s)
            &&& s@ == p.0
            &&& p2 == p.1
        } else {
            r == Err::<XDFElement, Error>(Error::BadValue)
        },
        None => r matches Err(e) && (e matches Error::UnexpectedEvent(_)),
    }
}

/// Outcome of a decimal-valued leaf tag dispatched at `i`.
pub open spec fn dec_leaf_post(
    events: Seq<Event>,
    i: int,
    k: Kind,
    r: Result<XDFElement, Error>,
    p2: int,
) -> bool {
    match text_result(events, i + 1) {
        Some(p) => (match dec_u32_of(p.0) {
            Some(v) => {
                &&& r matches Ok(e)
                &&& kind_of(e) == k
                &&& elem_u32(Some(e)) == Some(v)
                &&& p2 == p.1
            },
            None => r == Err::<XDFElement, Error>(Error::BadValue),
        }),
        None => r matches Err(e) && (e matches Error::UnexpectedEvent(_)),
    }
}

/// Outcome of a dual-base (decimal or `0x`-hexadecimal) leaf tag dispatched
/// at `i`.
pub open spec fn int_leaf_post(
    events: Seq<Event>,
    i: int,
    k: Kind,
    r: Result<XDFElement, Error>,
    p2: int,
) -> bool {
    match text_result(events, i + 1) {
        Some(p) => (match int_u32_of(p.0) {
            Some(v) => {
                &&& r matches Ok(e)
                &&& kind_of(e) == k
                &&& elem_u32(Some(e)) == Some(v)
                &&& p2 == p.1
            },
            None => r == Err::<XDFElement, Error>(Error::BadValue),
        }),
        None => r matches Err(e) && (e matches Error::UnexpectedEvent(_)),
    }
}

/// The exact error consuming a leaf's text produces at `p`, and the cursor
/// position after it: the stream ended, or the event there has the wrong
/// shape (the error carries a faithful copy of it).
pub open spec fn text_err(events: Seq<Event>, p: int, err: Error, q: int) -> bool {
    if p >= events.len() {
        err == Error::UnexpectedEvent(None) && q == p
    } else {
        match events[p] {
            Event::Text { .. } => p + 1 >= events.len() && err == Error::UnexpectedEvent(None)
                && q == p + 1,
            Event::TagClose { .. } => false,
            _ => (err matches Error::UnexpectedEvent(pl) && (pl matches Some(e2) && event_like(
                e2,
                events[p],
            ))) && q == p + 1,
        }
    }
}

/// The dispatcher, started at `p`, yields some close marker and leaves the
/// cursor at `q`: what must follow an attribute-only element.
pub open spec fn close_follows(events: Seq<Event>, p: int, d: Dialect, q: int) -> bool {
    let i = dispatch_pos(events, p, d);
    &&& i < events.len()
    &&& (events[i] matches Event::TagClose { .. })
    &&& q == i + 1
}


/// One node of a parse derivation: the ghost witness that ties an element
/// to the events it was parsed from.  A leaf node records where the
/// element ended; a composite node records the children as the builder
/// collected them, one sub-derivation per child, and the position at which
/// the container's own close was dispatched.
pub enum ParseTrace {
    Leaf { end: int },
    Comp { end: int, cs: Seq<XDFElement>, subs: Seq<ParseTrace>, pc: int },
}

/// Where the element this derivation describes ended.
pub open spec fn trace_end(tr: ParseTrace) -> int {
    match tr {
        ParseTrace::Leaf { end } => end,
        ParseTrace::Comp { end, .. } => end,
    }
}

/// The dispatch at `pc` yields the close marker of container kind `k`,
/// ending at `q`.
pub open spec fn body_close(events: Seq<Event>, pc: int, d: Dialect, k: Kind, q: int) -> bool {
    let j = dispatch_pos(events, pc, d);
    &&& 0 <= pc <= events.len()
    &&& j < events.len()
    &&& (events[j] matches Event::TagClose { name } && resolve_spec(name@, d) == Some(k))
    &&& q == j + 1
}

/// A conversion formula assembled from the tag's attributes and children.
pub open spec fn math_rel(m: crate::data_types::Math, attrs: Seq<Attr>, cs: Seq<XDFElement>) -> bool {
    &&& opt_str_is(m.expression, attr_val(attrs, "equation"@))
    &&& m.vars@.len() == crate::data_types::all_of_kind(cs, Kind::Var).len()
    &&& forall|j: int| 0 <= j < m.vars@.len() ==> XDFElement::Var(#[trigger] m.vars@[j])
        == crate::data_types::all_of_kind(cs, Kind::Var)[j]
}

/// A header assembled from its children.
pub open spec fn header_rel(h: crate::data_types::XDFHeader, cs: Seq<XDFElement>) -> bool {
    &&& h.deftitle == elem_str(crate::data_types::last_of_kind(cs, Kind::Title))
    &&& h.description == elem_str(crate::data_types::last_of_kind(cs, Kind::Description))
    &&& h.fileversion == elem_str(crate::data_types::last_of_kind(cs, Kind::FileVersion))
    &&& h.author == elem_str(crate::data_types::last_of_kind(cs, Kind::Author))
    &&& h.baseoffset == elem_u32(crate::data_types::last_of_kind(cs, Kind::BaseOffset))
    &&& h.defaults == crate::data_types::elem_defaults(
        crate::data_types::last_of_kind(cs, Kind::Defaults),
    )
    &&& h.region == crate::data_types::elem_region(
        crate::data_types::last_of_kind(cs, Kind::Region),
    )
    &&& h.flags == elem_u32(crate::data_types::last_of_kind(cs, Kind::Flags))
    &&& h.category == crate::data_types::elem_category(
        crate::data_types::last_of_kind(cs, Kind::Category),
    )
}

/// A table assembled from the tag's attributes and children.
pub open spec fn table_rel(t: crate::data_types::XDFTable, attrs: Seq<Attr>, cs: Seq<
    XDFElement,
>) -> bool {
    &&& t.uid == attr_int(attrs, "uniqueid"@)
    &&& t.title == elem_str(crate::data_types::last_of_kind(cs, Kind::Title))
    &&& t.flags == elem_u32(crate::data_types::last_of_kind(cs, Kind::Flags))
    &&& t.description == elem_str(crate::data_types::last_of_kind(cs, Kind::Description))
    &&& t.catmem == crate::data_types::elem_catmem(
        crate::data_types::last_of_kind(cs, Kind::CategoryMem),
    )
    &&& t.axis@.len() == crate::data_types::all_of_kind(cs, Kind::Axis).len()
    &&& forall|j: int| 0 <= j < t.axis@.len() ==> XDFElement::XDFAxis(#[trigger] t.axis@[j])
        == crate::data_types::all_of_kind(cs, Kind::Axis)[j]
}

/// An axis assembled from the tag's attributes and children.
pub open spec fn axis_rel(a: crate::data_types::XDFAxis, attrs: Seq<Attr>, cs: Seq<
    XDFElement,
>) -> bool {
    &&& opt_str_is(a.id, attr_val(attrs, "id"@))
    &&& a.uid == attr_int(attrs, "uniqueid"@)
    &&& a.embeddeddata == crate::data_types::elem_embedded(
        crate::data_types::last_of_kind(cs, Kind::EmbeddedData),
    )
    &&& a.datatype == elem_u32(crate::data_types::last_of_kind(cs, Kind::DataType))
    &&& a.unittype == elem_u32(crate::data_types::last_of_kind(cs, Kind::UnitType))
    &&& a.dalink_index == elem_u32(crate::data_types::last_of_kind(cs, Kind::DALink))
    &&& a.math == crate::data_types::elem_math(crate::data_types::last_of_kind(cs, Kind::Math))
    &&& a.count == elem_u32(crate::data_types::last_of_kind(cs, Kind::IndexCount))
    &&& a.min == elem_str(crate::data_types::last_of_kind(cs, Kind::Min))
    &&& a.max == elem_str(crate::data_types::last_of_kind(cs, Kind::Max))
    &&& a.outputtype == elem_u32(crate::data_types::last_of_kind(cs, Kind::OutputType))
    &&& a.decimalplaces == elem_u32(crate::data_types::last_of_kind(cs, Kind::DecimalPl))
    &&& a.unit == elem_str(crate::data_types::last_of_kind(cs, Kind::Units))
    &&& a.embedinfo == crate::data_types::elem_embedinfo(
        crate::data_types::last_of_kind(cs, Kind::EmbedInfo),
    )
    &&& a.labels@.len() == crate::data_types::all_of_kind(cs, Kind::Label).len()
    &&& forall|j: int| 0 <= j < a.labels@.len() ==> XDFElement::Label(#[trigger] a.labels@[j])
        == crate::data_types::all_of_kind(cs, Kind::Label)[j]
}

/// A constant assembled from the tag's attributes and children.
pub open spec fn constant_rel(c: crate::data_types::XDFConstant, attrs: Seq<Attr>, cs: Seq<
    XDFElement,
>) -> bool {
    &&& opt_str_is(c.uid, attr_val(attrs, "uniqueid"@))
    &&& c.title == elem_str(crate::data_types::last_of_kind(cs, Kind::Title))
    &&& c.description == elem_str(crate::data_types::last_of_kind(cs, Kind::Description))
    &&& c.catmem == crate::data_types::elem_catmem(
        crate::data_types::last_of_kind(cs, Kind::CategoryMem),
    )
    &&& c.embedded_data == crate::data_types::elem_embedded(
        crate::data_types::last_of_kind(cs, Kind::EmbeddedData),
    )
    &&& c.decimalplaces == elem_u32(crate::data_types::last_of_kind(cs, Kind::DecimalPl))
    &&& c.datatype == elem_u32(crate::data_types::last_of_kind(cs, Kind::DataType))
    &&& c.unittype == elem_u32(crate::data_types::last_of_kind(cs, Kind::UnitType))
    &&& c.outputtype == elem_u32(crate::data_types::last_of_kind(cs, Kind::OutputType))
    &&& c.unit == elem_str(crate::data_types::last_of_kind(cs, Kind::Units))
    &&& c.dalink_index == elem_u32(crate::data_types::last_of_kind(cs, Kind::DALink))
    &&& c.math == crate::data_types::elem_math(crate::data_types::last_of_kind(cs, Kind::Math))
}

/// The document root assembled from the tag's attributes and children.
pub open spec fn format_rel(f: crate::data_types::XDFFormat, attrs: Seq<Attr>, cs: Seq<
    XDFElement,
>) -> bool {
    &&& opt_str_is(f.version, attr_val(attrs, "version"@))
    &&& f.header == crate::data_types::elem_header(
        crate::data_types::last_of_kind(cs, Kind::Header),
    )
    &&& f.tables@.len() == crate::data_types::all_of_kind(cs, Kind::Table).len()
    &&& forall|j: int| 0 <= j < f.tables@.len() ==> XDFElement::XDFTable(#[trigger] f.tables@[j])
        == crate::data_types::all_of_kind(cs, Kind::Table)[j]
    &&& f.constants@.len() == crate::data_types::all_of_kind(cs, Kind::Constant).len()
    &&& forall|j: int| 0 <= j < f.constants@.len() ==> XDFElement::XDFConstant(
        #[trigger] f.constants@[j],
    ) == crate::data_types::all_of_kind(cs, Kind::Constant)[j]
}

/// The dispatcher, started at `p`, yields exactly the element `e` and
/// leaves the cursor at `q`, as witnessed by the derivation `tr`: the
/// complete relational account of a successful dispatch, composite
/// children included.
pub open spec fn elem_tr(
    events: Seq<Event>,
    p: int,
    d: Dialect,
    e: XDFElement,
    q: int,
    tr: ParseTrace,
) -> bool
    decreases events.len() - p, 0int,
    when 0 <= p <= events.len()
    via elem_tr_decreases
{
    let i = dispatch_pos(events, p, d);
    &&& trace_end(tr) == q
    &&& i < events.len()
    &&& (match events[i] {
        Event::TagClose { name } => (e matches XDFElement::End(n) && n@ == name@) && q == i + 1,
        Event::TagOpen { name, attrs } => {
            let k = resolve_spec(name@, d);
            ||| (k == Some(Kind::Title) && str_leaf_post(events, i, Kind::Title, Ok(e), q))
            ||| (k == Some(Kind::Description) && str_leaf_post(
                events,
                i,
                Kind::Description,
                Ok(e),
                q,
            ))
            ||| (k == Some(Kind::Units) && str_leaf_post(events, i, Kind::Units, Ok(e), q))
            ||| (k == Some(Kind::Author) && str_leaf_post(events, i, Kind::Author, Ok(e), q))
            ||| (k == Some(Kind::FileVersion) && str_leaf_post(
                events,
                i,
                Kind::FileVersion,
                Ok(e),
                q,
            ))
            ||| (k == Some(Kind::IndexCount) && dec_leaf_post(
                events,
                i,
                Kind::IndexCount,
                Ok(e),
                q,
            ))
            ||| (k == Some(Kind::DataType) && dec_leaf_post(events, i, Kind::DataType, Ok(e), q))
            ||| (k == Some(Kind::UnitType) && dec_leaf_post(events, i, Kind::UnitType, Ok(e), q))
            ||| (k == Some(Kind::DecimalPl) && dec_leaf_post(
                events,
                i,
                Kind::DecimalPl,
                Ok(e),
                q,
            ))
            ||| (k == Some(Kind::OutputType) && int_leaf_post(
                events,
                i,
                Kind::OutputType,
                Ok(e),
                q,
            ))
            ||| (k == Some(Kind::Flags) && int_leaf_post(events, i, Kind::Flags, Ok(e), q))
            ||| (k == Some(Kind::Min) && float_leaf_post(events, i, Kind::Min, Ok(e), q))
            ||| (k == Some(Kind::Max) && float_leaf_post(events, i, Kind::Max, Ok(e), q))
            ||| (k == Some(Kind::BaseOffset) && (match attr_dec_u32(attrs@, "offset"@) {
                Some(v) => e == XDFElement::BaseOffset(v) && q == i + 1,
                None => int_leaf_post(events, i, Kind::BaseOffset, Ok(e), q),
            }))
            ||| (k == Some(Kind::DALink) && ((attr_val(attrs@, "index"@) matches Some(t)
                && dec_u32_of(t) matches Some(v) && e == XDFElement::DALink(v)) && close_follows(
                events,
                i + 1,
                d,
                q,
            )))
            ||| (k == Some(Kind::Var) && ((attr_val(attrs@, "id"@) matches Some(t) && (e matches
                XDFElement::Var(s) && s@ == t)) && close_follows(events, i + 1, d, q)))
            ||| (k == Some(Kind::EmbedInfo) && ((e matches XDFElement::EmbedInfo(v)
                && embedinfo_ok(v, attrs@)) && close_follows(events, i + 1, d, q)))
            ||| (k == Some(Kind::Defaults) && ((e matches XDFElement::Defaults(v) && defaults_ok(
                v,
                attrs@,
            )) && close_follows(events, i + 1, d, q)))
            ||| (k == Some(Kind::Category) && ((e matches XDFElement::Category(v) && category_ok(
                v,
                attrs@,
            )) && close_follows(events, i + 1, d, q)))
            ||| (k == Some(Kind::Region) && ((e matches XDFElement::Region(v) && region_ok(
                v,
                attrs@,
            )) && close_follows(events, i + 1, d, q)))
            ||| (k == Some(Kind::CategoryMem) && ((e matches XDFElement::CategoryMem(v)
                && catmem_ok(v, attrs@)) && close_follows(events, i + 1, d, q)))
            ||| (k == Some(Kind::EmbeddedData) && ((e matches XDFElement::EmbeddedData(v)
                && embedded_ok(v, attrs@)) && close_follows(events, i + 1, d, q)))
            ||| (k == Some(Kind::Label) && ((e matches XDFElement::Label(v) && label_ok(
                v,
                attrs@,
            )) && close_follows(events, i + 1, d, q)))
            ||| (k == Some(Kind::Math) && (e matches XDFElement::Math(m) && (tr matches
                ParseTrace::Comp { end: _, cs, subs, pc } && {
                &&& math_rel(m, attrs@, cs)
                &&& body_steps(events, i + 1, d, Kind::Math, cs, subs, pc)
                &&& body_close(events, pc, d, Kind::Math, q)
            })))
            ||| (k == Some(Kind::Format) && (e matches XDFElement::XDFFormat(f) && (tr matches
                ParseTrace::Comp { end: _, cs, subs, pc } && {
                &&& format_rel(f, attrs@, cs)
                &&& body_steps(events, i + 1, d, Kind::Format, cs, subs, pc)
                &&& body_close(events, pc, d, Kind::Format, q)
            })))
            ||| (k == Some(Kind::Table) && (e matches XDFElement::XDFTable(t) && (tr matches
                ParseTrace::Comp { end: _, cs, subs, pc } && {
                &&& table_rel(t, attrs@, cs)
                &&& body_steps(events, i + 1, d, Kind::Table, cs, subs, pc)
                &&& body_close(events, pc, d, Kind::Table, q)
            })))
            ||| (k == Some(Kind::Header) && (e matches XDFElement::XDFHeader(h) && (tr matches
                ParseTrace::Comp { end: _, cs, subs, pc } && {
                &&& header_rel(h, cs)
                &&& body_steps(events, i + 1, d, Kind::Header, cs, subs, pc)
                &&& body_close(events, pc, d, Kind::Header, q)
            })))
            ||| (k == Some(Kind::Axis) && (e matches XDFElement::XDFAxis(a) && (tr matches
                ParseTrace::Comp { end: _, cs, subs, pc } && {
                &&& axis_rel(a, attrs@, cs)
                &&& body_steps(events, i + 1, d, Kind::Axis, cs, subs, pc)
                &&& body_close(events, pc, d, Kind::Axis, q)
            })))
            ||| (k == Some(Kind::Constant) && (e matches XDFElement::XDFConstant(c) && (tr matches
                ParseTrace::Comp { end: _, cs, subs, pc } && {
                &&& constant_rel(c, attrs@, cs)
                &&& body_steps(events, i + 1, d, Kind::Constant, cs, subs, pc)
                &&& body_close(events, pc, d, Kind::Constant, q)
            })))
        },
        _ => false,
    })
}

#[via_fn]
proof fn elem_tr_decreases(
    events: Seq<Event>,
    p: int,
    d: Dialect,
    e: XDFElement,
    q: int,
    tr: ParseTrace,
) {
    lemma_dispatch_pos_bounds(events, p, d);
}

/// The builder, started at `p0`, yields exactly the children `cs` — each
/// of an allowed kind, in order, witnessed by `subs`, interleaved only
/// with close markers of other names, which it ignores — and reaches `p`
/// without having consumed the container's own close.
pub open spec fn body_steps(
    events: Seq<Event>,
    p0: int,
    d: Dialect,
    k: Kind,
    cs: Seq<XDFElement>,
    subs: Seq<ParseTrace>,
    p: int,
) -> bool
    decreases events.len() - p0, 1int,
    when 0 <= p0 <= events.len()
    via body_steps_decreases
{
    if p == p0 {
        cs.len() == 0 && subs.len() == 0
    } else {
        let i = dispatch_pos(events, p0, d);
        &&& i < events.len()
        &&& (match events[i] {
            Event::TagClose { name } => resolve_spec(name@, d) != Some(k) && body_steps(
                events,
                i + 1,
                d,
                k,
                cs,
                subs,
                p,
            ),
            Event::TagOpen { .. } => {
                &&& cs.len() > 0
                &&& subs.len() == cs.len()
                &&& kind_of(cs.first()) != Kind::End
                &&& child_allowed(k, kind_of(cs.first()))
                &&& elem_tr(events, p0, d, cs.first(), trace_end(subs.first()), subs.first())
                &&& ({
                    let qe = trace_end(subs.first());
                    let qn = if p0 + 1 <= qe && qe <= events.len() {
                        qe
                    } else {
                        p0 + 1
                    };
                    body_steps(events, qn, d, k, cs.drop_first(), subs.drop_first(), p)
                })
            },
            _ => false,
        })
    }
}

#[via_fn]
proof fn body_steps_decreases(
    events: Seq<Event>,
    p0: int,
    d: Dialect,
    k: Kind,
    cs: Seq<XDFElement>,
    subs: Seq<ParseTrace>,
    p: int,
) {
    lemma_dispatch_pos_bounds(events, p0, d);
}


proof fn lemma_body_steps_bounds(
    events: Seq<Event>,
    p0: int,
    d: Dialect,
    k: Kind,
    cs: Seq<XDFElement>,
    subs: Seq<ParseTrace>,
    p: int,
)
    requires
        0 <= p0 <= events.len(),
        body_steps(events, p0, d, k, cs, subs, p),
    ensures
        p0 <= p <= events.len(),
        subs.len() == cs.len(),
    decreases events.len() - p0,
{
    if p == p0 {
    } else {
        let i = dispatch_pos(events, p0, d);
        lemma_dispatch_pos_bounds(events, p0, d);
        match events[i] {
            Event::TagClose { .. } => {
                lemma_body_steps_bounds(events, i + 1, d, k, cs, subs, p);
            },
            Event::TagOpen { .. } => {
                let qe = trace_end(subs.first());
                let qn = if p0 + 1 <= qe && qe <= events.len() {
                    qe
                } else {
                    p0 + 1
                };
                lemma_body_steps_bounds(events, qn, d, k, cs.drop_first(), subs.drop_first(), p);
            },
            _ => {
                assert(false);
            },
        }
    }
}

/// A derivation that reached `p` extends over an ignored close marker.
proof fn lemma_body_steps_skip(
    events: Seq<Event>,
    p0: int,
    d: Dialect,
    k: Kind,
    cs: Seq<XDFElement>,
    subs: Seq<ParseTrace>,
    p: int,
    q: int,
)
    requires
        0 <= p0 <= events.len(),
        body_steps(events, p0, d, k, cs, subs, p),
        dispatch_pos(events, p, d) < events.len(),
        (events[dispatch_pos(events, p, d)] matches Event::TagClose { name } && resolve_spec(
            name@,
            d,
        ) != Some(k)),
        q == dispatch_pos(events, p, d) + 1,
    ensures
        body_steps(events, p0, d, k, cs, subs, q),
    decreases events.len() - p0,
{
    lemma_body_steps_bounds(events, p0, d, k, cs, subs, p);
    lemma_dispatch_pos_bounds(events, p, d);
    if p == p0 {
        assert(body_steps(events, q, d, k, cs, subs, q));
    } else {
        let i = dispatch_pos(events, p0, d);
        lemma_dispatch_pos_bounds(events, p0, d);
        match events[i] {
            Event::TagClose { .. } => {
                lemma_body_steps_skip(events, i + 1, d, k, cs, subs, p, q);
            },
            Event::TagOpen { .. } => {
                let qe = trace_end(subs.first());
                let qn = if p0 + 1 <= qe && qe <= events.len() {
                    qe
                } else {
                    p0 + 1
                };
                lemma_body_steps_skip(events, qn, d, k, cs.drop_first(), subs.drop_first(), p, q);
            },
            _ => {
                assert(false);
            },
        }
    }
}

/// A derivation that reached `p` extends by one produced child.
proof fn lemma_body_steps_child(
    events: Seq<Event>,
    p0: int,
    d: Dialect,
    k: Kind,
    cs: Seq<XDFElement>,
    subs: Seq<ParseTrace>,
    p: int,
    e: XDFElement,
    q: int,
    tr: ParseTrace,
)
    requires
        0 <= p0 <= events.len(),
        body_steps(events, p0, d, k, cs, subs, p),
        elem_tr(events, p, d, e, q, tr),
        p < q <= events.len(),
        kind_of(e) != Kind::End,
        child_allowed(k, kind_of(e)),
    ensures
        body_steps(events, p0, d, k, cs.push(e), subs.push(tr), q),
    decreases events.len() - p0,
{
    lemma_body_steps_bounds(events, p0, d, k, cs, subs, p);
    lemma_dispatch_pos_bounds(events, p, d);
    if p == p0 {
        assert(cs.push(e).first() == e);
        assert(subs.push(tr).first() == tr);
        assert(cs.push(e).drop_first() =~= cs);
        assert(subs.push(tr).drop_first() =~= subs);
        assert(body_steps(events, q, d, k, cs, subs, q));
        let i = dispatch_pos(events, p0, d);
        match events[i] {
            Event::TagClose { .. } => {
                // a dispatch at a close yields only a close marker
                assert(false);
            },
            _ => {
            },
        }
    } else {
        let i = dispatch_pos(events, p0, d);
        lemma_dispatch_pos_bounds(events, p0, d);
        match events[i] {
            Event::TagClose { .. } => {
                lemma_body_steps_child(events, i + 1, d, k, cs, subs, p, e, q, tr);
            },
            Event::TagOpen { .. } => {
                let qe = trace_end(subs.first());
                let qn = if p0 + 1 <= qe && qe <= events.len() {
                    qe
                } else {
                    p0 + 1
                };
                lemma_body_steps_child(
                    events,
                    qn,
                    d,
                    k,
                    cs.drop_first(),
                    subs.drop_first(),
                    p,
                    e,
                    q,
                    tr,
                );
                assert(cs.push(e).first() == cs.first());
                assert(subs.push(tr).first() == subs.first());
                assert(cs.push(e).drop_first() =~= cs.drop_first().push(e));
                assert(subs.push(tr).drop_first() =~= subs.drop_first().push(tr));
            },
            _ => {
                assert(false);
            },
        }
    }
}


/// The kinds whose elements are built from collected children.
pub open spec fn is_composite(k: Kind) -> bool {
    ||| k == Kind::Math
    ||| k == Kind::Format
    ||| k == Kind::Table
    ||| k == Kind::Header
    ||| k == Kind::Axis
    ||| k == Kind::Constant
}

/// For a non-composite tag, a successful dispatch outcome per [`open_post`]
/// is itself a complete derivation: a leaf node ending where it ended.
#[verifier::rlimit(100)]
#[verifier::spinoff_prover]
proof fn lemma_elem_tr_from_open_post(
    events: Seq<Event>,
    i: int,
    d: Dialect,
    name: Seq<char>,
    attrs: Seq<Attr>,
    k: Kind,
    e: XDFElement,
    q: int,
)
    requires
        0 <= i < events.len(),
        (events[i] matches Event::TagOpen { name: n2, attrs: a2 } && n2@ == name && a2@ == attrs),
        resolve_spec(name, d) == Some(k),
        k != Kind::Skip,
        k != Kind::End,
        !is_composite(k),
        open_post(events, i, name, attrs, d, Ok(e), q),
    ensures
        elem_tr(events, i, d, e, q, ParseTrace::Leaf { end: q }),
{
    lemma_dispatch_pos_bounds(events, i, d);
}


/// Which leaf kinds reject the given text with `BadValue`.
pub open spec fn leaf_fails(k: Kind, text: Seq<char>) -> bool {
    match k {
        Kind::IndexCount => dec_u32_of(text) is None,
        Kind::DataType => dec_u32_of(text) is None,
        Kind::UnitType => dec_u32_of(text) is None,
        Kind::DecimalPl => dec_u32_of(text) is None,
        Kind::OutputType => int_u32_of(text) is None,
        Kind::Flags => int_u32_of(text) is None,
        Kind::BaseOffset => int_u32_of(text) is None,
        Kind::Min => !is_float_text(text),
        Kind::Max => !is_float_text(text),
        _ => false,
    }
}

/// The error a decoded leaf dispatched at `i` produces: a malformed event
/// shape, or text that the kind's decoder rejects.
pub open spec fn leaf_err(events: Seq<Event>, i: int, k: Kind, err: Error, q: int) -> bool {
    ||| text_err(events, i + 1, err, q)
    ||| (text_result(events, i + 1) matches Some(pp) && leaf_fails(k, pp.0) && err
        == Error::BadValue && q == pp.1)
}

/// One node of a failure derivation: where in the element structure the
/// parse failed, with the successfully parsed prefix as witness.
pub enum ErrTrace {
    /// The failure arises at this dispatch step itself.
    Here,
    /// An attribute-only element was followed by a produced element `e2`
    /// instead of a close marker; the error carries it.
    After { e2: XDFElement, etr: ParseTrace },
    /// An attribute-only element's following dispatch failed.
    Next { sub: Seq<ErrTrace> },
    /// A composite's body produced the prefix `cs`, then a dispatch at
    /// `pf` failed.
    Inside { cs: Seq<XDFElement>, subs: Seq<ParseTrace>, pf: int, sub: Seq<ErrTrace> },
    /// A composite's body produced the prefix `cs`, then a child `e2` of
    /// an undeclared kind; the error carries it.
    BadChild { cs: Seq<XDFElement>, subs: Seq<ParseTrace>, pf: int, e2: XDFElement, etr: ParseTrace },
}

/// An attribute-only kind whose attributes decode, so that the dispatch
/// proceeds to require the following close marker.
pub open spec fn attr_only_ready(k: Option<Kind>, attrs: Seq<Attr>) -> bool {
    match k {
        Some(Kind::EmbedInfo) => true,
        Some(Kind::Defaults) => true,
        Some(Kind::Category) => true,
        Some(Kind::Region) => true,
        Some(Kind::CategoryMem) => true,
        Some(Kind::EmbeddedData) => true,
        Some(Kind::Label) => true,
        Some(Kind::DALink) => attr_val(attrs, "index"@) matches Some(t) && dec_u32_of(t) is Some,
        Some(Kind::Var) => attr_val(attrs, "id"@) is Some,
        _ => false,
    }
}

/// The dispatcher, started at `p`, fails with exactly the error `err` and
/// leaves the cursor at `q`, as witnessed by the failure derivation `et`:
/// the complete relational account of a failing dispatch, payloads
/// included.
pub open spec fn elem_err_tr(
    events: Seq<Event>,
    p: int,
    d: Dialect,
    err: Error,
    q: int,
    et: ErrTrace,
) -> bool
    decreases events.len() - p, 2int,
    when 0 <= p <= events.len()
    via elem_err_tr_decreases
{
    let i = dispatch_pos(events, p, d);
    if i >= events.len() {
        (et is Here) && err == Error::UnexpectedEvent(None) && q == i
    } else {
        match events[i] {
            Event::DocStart => false,
            Event::TagClose { .. } => false,
            Event::TagOpen { name, attrs } => {
                let k = resolve_spec(name@, d);
                ||| ((et is Here) && {
                    ||| (k is None && err == Error::UnknownType && q == i + 1)
                    ||| (k == Some(Kind::Title) && leaf_err(events, i, Kind::Title, err, q))
                    ||| (k == Some(Kind::Description) && leaf_err(
                        events,
                        i,
                        Kind::Description,
                        err,
                        q,
                    ))
                    ||| (k == Some(Kind::Units) && leaf_err(events, i, Kind::Units, err, q))
                    ||| (k == Some(Kind::Author) && leaf_err(events, i, Kind::Author, err, q))
                    ||| (k == Some(Kind::FileVersion) && leaf_err(
                        events,
                        i,
                        Kind::FileVersion,
                        err,
                        q,
                    ))
                    ||| (k == Some(Kind::IndexCount) && leaf_err(
                        events,
                        i,
                        Kind::IndexCount,
                        err,
                        q,
                    ))
                    ||| (k == Some(Kind::DataType) && leaf_err(events, i, Kind::DataType, err, q))
                    ||| (k == Some(Kind::UnitType) && leaf_err(events, i, Kind::UnitType, err, q))
                    ||| (k == Some(Kind::DecimalPl) && leaf_err(
                        events,
                        i,
                        Kind::DecimalPl,
                        err,
                        q,
                    ))
                    ||| (k == Some(Kind::OutputType) && leaf_err(
                        events,
                        i,
                        Kind::OutputType,
                        err,
                        q,
                    ))
                    ||| (k == Some(Kind::Flags) && leaf_err(events, i, Kind::Flags, err, q))
                    ||| (k == Some(Kind::Min) && leaf_err(events, i, Kind::Min, err, q))
                    ||| (k == Some(Kind::Max) && leaf_err(events, i, Kind::Max, err, q))
                    ||| (k == Some(Kind::BaseOffset) && attr_dec_u32(attrs@, "offset"@) is None
                        && leaf_err(events, i, Kind::BaseOffset, err, q))
                    ||| (k == Some(Kind::DALink) && attr_val(attrs@, "index"@) is None && err
                        == Error::MissingItem && q == i + 1)
                    ||| (k == Some(Kind::DALink) && (attr_val(attrs@, "index"@) matches Some(t)
                        && dec_u32_of(t) is None) && err == Error::BadValue && q == i + 1)
                    ||| (k == Some(Kind::Var) && attr_val(attrs@, "id"@) is None && err
                        == Error::MissingItem && q == i + 1)
                })
                ||| (attr_only_ready(k, attrs@) && (et matches ErrTrace::Next { sub } && {
                    &&& sub.len() == 1
                    &&& elem_err_tr(events, i + 1, d, err, q, sub[0])
                }))
                ||| (attr_only_ready(k, attrs@) && (et matches ErrTrace::After { e2, etr } && {
                    &&& elem_tr(events, i + 1, d, e2, q, etr)
                    &&& kind_of(e2) != Kind::End
                    &&& err == Error::UnexpectedElement(e2)
                }))
                ||| ((k matches Some(kk) && is_composite(kk)) && (et matches ErrTrace::Inside {
                    cs,
                    subs,
                    pf,
                    sub,
                } && {
                    &&& k matches Some(kk2)
                    &&& i + 1 <= pf <= events.len()
                    &&& body_steps(events, i + 1, d, kk2, cs, subs, pf)
                    &&& sub.len() == 1
                    &&& elem_err_tr(events, pf, d, err, q, sub[0])
                }))
                ||| ((k matches Some(kk) && is_composite(kk)) && (et matches ErrTrace::BadChild {
                    cs,
                    subs,
                    pf,
                    e2,
                    etr,
                } && {
                    &&& k matches Some(kk2)
                    &&& i + 1 <= pf <= events.len()
                    &&& body_steps(events, i + 1, d, kk2, cs, subs, pf)
                    &&& elem_tr(events, pf, d, e2, q, etr)
                    &&& kind_of(e2) != Kind::End
                    &&& !child_allowed(kk2, kind_of(e2))
                    &&& err == Error::UnexpectedElement(e2)
                }))
            },
            _ => (et is Here) && (err matches Error::UnexpectedEvent(pl) && (pl matches Some(ev2)
                && event_like(ev2, events[i]))) && q == i + 1,
        }
    }
}

#[via_fn]
proof fn elem_err_tr_decreases(
    events: Seq<Event>,
    p: int,
    d: Dialect,
    err: Error,
    q: int,
    et: ErrTrace,
) {
    lemma_dispatch_pos_bounds(events, p, d);
}


/// Failure is owed a derivation.  The dispatcher's contract ties every
/// error to a failure derivation and every success to a parse derivation,
/// so a caller who rules out all failure derivations at a position — as on
/// any concrete well-formed body — has thereby forced success there.
pub proof fn lemma_err_needs_derivation(
    events: Seq<Event>,
    p: int,
    d: Dialect,
    r: Result<XDFElement, Error>,
    q: int,
)
    requires
        (r matches Err(err) ==> (exists|et: ErrTrace| #[trigger] elem_err_tr(
            events,
            p,
            d,
            err,
            q,
            et,
        ))),
        forall|err: Error, et: ErrTrace| !(#[trigger] elem_err_tr(events, p, d, err, q, et)),
    ensures
        r is Ok,
{
}

/// Consume the text of a leaf tag: a text event yields its content and the
/// following event is consumed as the close; an immediate close yields the
/// empty string, which is a valid empty leaf, not an error.
pub fn extract_text(events: &Vec<Event>, pos: &mut usize) -> (r: Result<String, Error>)
    requires
        *old(pos) <= events@.len(),
    ensures
        *old(pos) <= *final(pos) <= events@.len(),
        (match text_result(events@, *old(pos) as int) {
            Some(p) => r matches Ok(s) && s@ == p.0 && *final(pos) == p.1,
            None => r matches Err(e) && text_err(events@, *old(pos) as int, e, *final(pos) as int),
        }),
{
    if *pos >= events.len() {
        return Err(Error::UnexpectedEvent(None));
    }
    let idx = *pos;
    match &events[idx] {
        Event::Text { content } => {
            let s = content.clone();
            *pos = idx + 1;
            if *pos >= events.len() {
                return Err(Error::UnexpectedEvent(None));
            }
            *pos = idx + 2;
            Ok(s)
        },
        Event::TagClose { .. } => {
            *pos = idx + 1;
            Ok(String::new())
        },
        Event::DocStart => {
            *pos = idx + 1;
            Err(Error::UnexpectedEvent(Some(Event::DocStart)))
        },
        Event::DocEnd => {
            *pos = idx + 1;
            Err(Error::UnexpectedEvent(Some(Event::DocEnd)))
        },
        Event::Other => {
            *pos = idx + 1;
            Err(Error::UnexpectedEvent(Some(Event::Other)))
        },
        Event::TagOpen { name, attrs } => {
            *pos = idx + 1;
            Err(
                Error::UnexpectedEvent(
                    Some(Event::TagOpen { name: name.clone(), attrs: clone_attrs(attrs) }),
                ),
            )
        },
    }
}

/// Consume a leaf's text and decode it as plain decimal.
fn leaf_dec_u32(events: &Vec<Event>, pos: &mut usize) -> (r: Result<u32, Error>)
    requires
        *old(pos) <= events@.len(),
    ensures
        *old(pos) <= *final(pos) <= events@.len(),
        (match text_result(events@, *old(pos) as int) {
            Some(p) => (match dec_u32_of(p.0) {
                Some(v) => r == Ok::<u32, Error>(v) && *final(pos) == p.1,
                None => r == Err::<u32, Error>(Error::BadValue) && *final(pos) == p.1,
            }),
            None => r matches Err(e) && text_err(events@, *old(pos) as int, e, *final(pos) as int),
        }),
{
    match extract_text(events, pos) {
        Err(e) => Err(e),
        Ok(s) => match parse_dec_u32(s.as_str()) {
            Some(v) => Ok(v),
            None => Err(Error::BadValue),
        },
    }
}

/// Consume a leaf's text and decode it with the dual-base grammar.
fn leaf_int_u32(events: &Vec<Event>, pos: &mut usize) -> (r: Result<u32, Error>)
    requires
        *old(pos) <= events@.len(),
    ensures
        *old(pos) <= *final(pos) <= events@.len(),
        (match text_result(events@, *old(pos) as int) {
            Some(p) => (match int_u32_of(p.0) {
                Some(v) => r == Ok::<u32, Error>(v) && *final(pos) == p.1,
                None => r == Err::<u32, Error>(Error::BadValue) && *final(pos) == p.1,
            }),
            None => r matches Err(e) && text_err(events@, *old(pos) as int, e, *final(pos) as int),
        }),
{
    match extract_text(events, pos) {
        Err(e) => Err(e),
        Ok(s) => match parse_int_opt(s.as_str()) {
            Some(v) => Ok(v),
            None => Err(Error::BadValue),
        },
    }
}

fn attr_int_x(attrs: &Vec<Attr>, name: &str) -> (r: Option<u32>)
    ensures
        r == attr_int(attrs@, name@),
{
    match get_attr(attrs, name) {
        Some(v) => parse_int_opt(v.as_str()),
        None => None,
    }
}

fn attr_dec_u32_x(attrs: &Vec<Attr>, name: &str) -> (r: Option<u32>)
    ensures
        r == attr_dec_u32(attrs@, name@),
{
    match get_attr(attrs, name) {
        Some(v) => parse_dec_u32(v.as_str()),
        None => None,
    }
}

fn attr_dec_i32_x(attrs: &Vec<Attr>, name: &str) -> (r: Option<i32>)
    ensures
        r == attr_dec_i32(attrs@, name@),
{
    match get_attr(attrs, name) {
        Some(v) => parse_dec_i32(v.as_str()),
        None => None,
    }
}

fn region_from_attrs(attrs: &Vec<Attr>) -> (r: Region)
    ensures
        region_ok(r, attrs@),
{
    Region {
        rtype: attr_int_x(attrs, "type"),
        startaddress: attr_int_x(attrs, "startaddress"),
        size: attr_int_x(attrs, "size"),
        regionflags: attr_int_x(attrs, "regionflags"),
    }
}

fn defaults_from_attrs(attrs: &Vec<Attr>) -> (r: Defaults)
    ensures
        defaults_ok(r, attrs@),
{
    Defaults {
        datasizeinbits: attr_int_x(attrs, "datasizeinbits"),
        sigdigits: attr_int_x(attrs, "sigdigits"),
        outputtype: attr_int_x(attrs, "outputtype"),
        signed: attr_int_x(attrs, "signed"),
        lsbfirst: attr_int_x(attrs, "lsbfirst"),
        float: attr_int_x(attrs, "float"),
    }
}

fn category_from_attrs(attrs: &Vec<Attr>) -> (r: Category)
    ensures
        category_ok(r, attrs@),
{
    Category { index: attr_int_x(attrs, "index"), name: get_attr(attrs, "name") }
}

fn catmem_from_attrs(attrs: &Vec<Attr>) -> (r: CategoryMem)
    ensures
        catmem_ok(r, attrs@),
{
    CategoryMem {
        index: attr_dec_u32_x(attrs, "index"),
        category: attr_dec_u32_x(attrs, "category"),
    }
}

fn embedded_from_attrs(attrs: &Vec<Attr>) -> (r: EmbeddedData)
    ensures
        embedded_ok(r, attrs@),
{
    EmbeddedData {
        mmedaddress: attr_int_x(attrs, "mmedaddress"),
        mmedelementsizebits: attr_dec_u32_x(attrs, "mmedelementsizebits"),
        mmedmajorstridebits: attr_dec_i32_x(attrs, "mmedmajorstridebits"),
        mmedminorstridebits: attr_dec_i32_x(attrs, "mmedminorstridebits"),
        mmedtypeflags: attr_dec_u32_x(attrs, "mmedtypeflags"),
        mmedrowcount: attr_dec_u32_x(attrs, "mmedrowcount"),
        mmedcolcount: attr_dec_u32_x(attrs, "mmedcolcount"),
    }
}

fn label_from_attrs(attrs: &Vec<Attr>) -> (r: Label)
    ensures
        label_ok(r, attrs@),
{
    Label { index: attr_dec_u32_x(attrs, "index"), value: get_attr(attrs, "value") }
}

fn embedinfo_from_attrs(attrs: &Vec<Attr>) -> (r: EmbedInfo)
    ensures
        embedinfo_ok(r, attrs@),
{
    EmbedInfo { etype: attr_int_x(attrs, "type"), linkobjid: attr_int_x(attrs, "linkobjid") }
}

/// Skip forward past the close matching an already-consumed ignorable open,
/// counting nested opens and closes, whatever they contain.
#[verifier::loop_isolation(false)]
fn skip_ignorable(events: &Vec<Event>, pos: &mut usize)
    requires
        *old(pos) <= events@.len(),
    ensures
        *old(pos) <= *final(pos) <= events@.len(),
        *final(pos) as int == skip_end(events@, *old(pos) as int, 1),
{
    let ghost p0 = *old(pos) as int;
    let mut depth: u128 = 1;
    loop
        invariant
            p0 <= *pos as int <= events@.len(),
            1 <= depth,
            depth as int <= 1 + (*pos as int - p0),
            skip_end(events@, p0, 1) == skip_end(events@, *pos as int, depth as int),
        decreases events@.len() - *pos as int,
    {
        if *pos >= events.len() {
            return ;
        }
        let idx = *pos;
        match &events[idx] {
            Event::TagOpen { .. } => {
                *pos = idx + 1;
                depth = depth + 1;
            },
            Event::TagClose { .. } => {
                *pos = idx + 1;
                if depth == 1 {
                    return ;
                }
                depth = depth - 1;
            },
            _ => {
                *pos = idx + 1;
            },
        }
    }
}

/// Everything the dispatcher promises for a recognized, non-ignorable
/// tag-open at position `i`: per kind, when it succeeds, what it returns,
/// and where the cursor lands.
pub open spec fn open_post(
    events: Seq<Event>,
    i: int,
    name: Seq<char>,
    attrs: Seq<Attr>,
    d: Dialect,
    r: Result<XDFElement, Error>,
    p2: int,
) -> bool {
    let k = resolve_spec(name, d);
                        &&& (k is None ==> r == Err::<XDFElement, Error>(Error::UnknownType)
                            && p2 == i + 1)
                        &&& (k == Some(Kind::Title) ==> str_leaf_post(
                            events,
                            i,
                            Kind::Title,
                            r,
                            p2,
                        ))
                        &&& (k == Some(Kind::Description) ==> str_leaf_post(
                            events,
                            i,
                            Kind::Description,
                            r,
                            p2,
                        ))
                        &&& (k == Some(Kind::Units) ==> str_leaf_post(
                            events,
                            i,
                            Kind::Units,
                            r,
                            p2,
                        ))
                        &&& (k == Some(Kind::Author) ==> str_leaf_post(
                            events,
                            i,
                            Kind::Author,
                            r,
                            p2,
                        ))
                        &&& (k == Some(Kind::FileVersion) ==> str_leaf_post(
                            events,
                            i,
                            Kind::FileVersion,
                            r,
                            p2,
                        ))
                        &&& (k == Some(Kind::IndexCount) ==> dec_leaf_post(
                            events,
                            i,
                            Kind::IndexCount,
                            r,
                            p2,
                        ))
                        &&& (k == Some(Kind::DataType) ==> dec_leaf_post(
                            events,
                            i,
                            Kind::DataType,
                            r,
                            p2,
                        ))
                        &&& (k == Some(Kind::UnitType) ==> dec_leaf_post(
                            events,
                            i,
                            Kind::UnitType,
                            r,
                            p2,
                        ))
                        &&& (k == Some(Kind::DecimalPl) ==> dec_leaf_post(
                            events,
                            i,
                            Kind::DecimalPl,
                            r,
                            p2,
                        ))
                        &&& (k == Some(Kind::OutputType) ==> int_leaf_post(
                            events,
                            i,
                            Kind::OutputType,
                            r,
                            p2,
                        ))
                        &&& (k == Some(Kind::Flags) ==> int_leaf_post(
                            events,
                            i,
                            Kind::Flags,
                            r,
                            p2,
                        ))
                        &&& (k == Some(Kind::Min) ==> float_leaf_post(
                            events,
                            i,
                            Kind::Min,
                            r,
                            p2,
                        ))
                        &&& (k == Some(Kind::Max) ==> float_leaf_post(
                            events,
                            i,
                            Kind::Max,
                            r,
                            p2,
                        ))
                        &&& (k == Some(Kind::BaseOffset) ==> (match attr_dec_u32(
                            attrs,
                            "offset"@,
                        ) {
                            Some(v) => r == Ok::<XDFElement, Error>(XDFElement::BaseOffset(v))
                                && p2 == i + 1,
                            None => int_leaf_post(events, i, Kind::BaseOffset, r, p2),
                        }))
                        &&& (k == Some(Kind::DALink) ==> (match attr_val(attrs, "index"@) {
                            None => r == Err::<XDFElement, Error>(Error::MissingItem) && p2 == i + 1,
                            Some(v) => (match dec_u32_of(v) {
                                None => r == Err::<XDFElement, Error>(Error::BadValue) && p2 == i + 1,
                                Some(n) => {
                                    &&& (r matches Ok(e) ==> e == XDFElement::DALink(n))
                                    &&& (r matches Ok(_) ==> close_follows(events, i + 1, d, p2))
                                    &&& (i + 1 < events.len() && (events[i + 1] matches Event::TagClose { .. }) ==> r == Ok::<XDFElement, Error>(
                                        XDFElement::DALink(n),
                                    ) && p2 == i + 2)
                                },
                            }),
                        }))
                        &&& (k == Some(Kind::Var) ==> (match attr_val(attrs, "id"@) {
                            None => r == Err::<XDFElement, Error>(Error::MissingItem) && p2 == i + 1,
                            Some(v) => {
                                &&& (r matches Ok(e) ==> e matches XDFElement::Var(s) && s@ == v)
                                &&& (r matches Ok(_) ==> close_follows(events, i + 1, d, p2))
                                &&& (i + 1 < events.len() && (events[i + 1] matches Event::TagClose { .. }) ==> (r matches Ok(e)
                                    && (e matches XDFElement::Var(s) && s@ == v)
                                    && p2 == i + 2))
                            },
                        }))
                        &&& (k == Some(Kind::EmbedInfo) ==> {
                            &&& (r matches Ok(e) ==> e matches XDFElement::EmbedInfo(v)
                                && embedinfo_ok(v, attrs))
                            &&& (r matches Ok(_) ==> close_follows(events, i + 1, d, p2))
                            &&& (i + 1 < events.len() && (events[i + 1] matches Event::TagClose { .. }) ==> (r matches Ok(_) && p2 == i + 2))
                        })
                        &&& (k == Some(Kind::Defaults) ==> {
                            &&& (r matches Ok(e) ==> e matches XDFElement::Defaults(v)
                                && defaults_ok(v, attrs))
                            &&& (r matches Ok(_) ==> close_follows(events, i + 1, d, p2))
                            &&& (i + 1 < events.len() && (events[i + 1] matches Event::TagClose { .. }) ==> (r matches Ok(_) && p2 == i + 2))
                        })
                        &&& (k == Some(Kind::Category) ==> {
                            &&& (r matches Ok(e) ==> e matches XDFElement::Category(v)
                                && category_ok(v, attrs))
                            &&& (r matches Ok(_) ==> close_follows(events, i + 1, d, p2))
                            &&& (i + 1 < events.len() && (events[i + 1] matches Event::TagClose { .. }) ==> (r matches Ok(_) && p2 == i + 2))
                        })
                        &&& (k == Some(Kind::Region) ==> {
                            &&& (r matches Ok(e) ==> e matches XDFElement::Region(v) && region_ok(
                                v,
                                attrs,
                            ))
                            &&& (r matches Ok(_) ==> close_follows(events, i + 1, d, p2))
                            &&& (i + 1 < events.len() && (events[i + 1] matches Event::TagClose { .. }) ==> (r matches Ok(_) && p2 == i + 2))
                        })
                        &&& (k == Some(Kind::CategoryMem) ==> {
                            &&& (r matches Ok(e) ==> e matches XDFElement::CategoryMem(v)
                                && catmem_ok(v, attrs))
                            &&& (r matches Ok(_) ==> close_follows(events, i + 1, d, p2))
                            &&& (i + 1 < events.len() && (events[i + 1] matches Event::TagClose { .. }) ==> (r matches Ok(_) && p2 == i + 2))
                        })
                        &&& (k == Some(Kind::EmbeddedData) ==> {
                            &&& (r matches Ok(e) ==> e matches XDFElement::EmbeddedData(v)
                                && embedded_ok(v, attrs))
                            &&& (r matches Ok(_) ==> close_follows(events, i + 1, d, p2))
                            &&& (i + 1 < events.len() && (events[i + 1] matches Event::TagClose { .. }) ==> (r matches Ok(_) && p2 == i + 2))
                        })
                        &&& (k == Some(Kind::Label) ==> {
                            &&& (r matches Ok(e) ==> e matches XDFElement::Label(v) && label_ok(
                                v,
                                attrs,
                            ))
                            &&& (r matches Ok(_) ==> close_follows(events, i + 1, d, p2))
                            &&& (i + 1 < events.len() && (events[i + 1] matches Event::TagClose { .. }) ==> (r matches Ok(_) && p2 == i + 2))
                        })
                        &&& (k == Some(Kind::Math) ==> {
                            &&& (r matches Ok(e) ==> e matches XDFElement::Math(m)
                                && opt_str_is(m.expression, attr_val(attrs, "equation"@)))
                            &&& (r matches Ok(_) ==> i + 1 < p2 <= events.len()
                                && (events[p2 - 1] matches Event::TagClose { name: n2 }
                                && resolve_spec(n2@, d) == Some(Kind::Math)))
                            &&& (i + 1 < events.len() && (events[i + 1] matches
                                Event::TagClose { name: n2 } && resolve_spec(n2@, d)
                                == Some(Kind::Math)) ==> (r matches Ok(e) && (e matches XDFElement::Math(m)
                                && m.vars@.len() == 0) && p2 == i + 2))
                        })
                        &&& (k == Some(Kind::Format) ==> {
                            &&& (r matches Ok(e) ==> e matches XDFElement::XDFFormat(f)
                                && opt_str_is(f.version, attr_val(attrs, "version"@)))
                            &&& (r matches Ok(_) ==> i + 1 < p2 <= events.len()
                                && (events[p2 - 1] matches Event::TagClose { name: n2 }
                                && resolve_spec(n2@, d) == Some(Kind::Format)))
                            &&& (i + 1 < events.len() && (events[i + 1] matches
                                Event::TagClose { name: n2 } && resolve_spec(n2@, d)
                                == Some(Kind::Format)) ==> (r matches Ok(e) && (e matches XDFElement::XDFFormat(f)
                                && f.header is None && f.tables@.len() == 0
                                && f.constants@.len() == 0) && p2 == i + 2))
                        })
                        &&& (k == Some(Kind::Table) ==> {
                            &&& (r matches Ok(e) ==> e matches XDFElement::XDFTable(t)
                                && t.uid == attr_int(attrs, "uniqueid"@))
                            &&& (r matches Ok(_) ==> i + 1 < p2 <= events.len()
                                && (events[p2 - 1] matches Event::TagClose { name: n2 }
                                && resolve_spec(n2@, d) == Some(Kind::Table)))
                            &&& (i + 1 < events.len() && (events[i + 1] matches
                                Event::TagClose { name: n2 } && resolve_spec(n2@, d)
                                == Some(Kind::Table)) ==> (r matches Ok(e) && (e matches XDFElement::XDFTable(t)
                                && t.title is None && t.flags is None && t.description is None
                                && t.catmem is None && t.axis@.len() == 0) && p2 == i + 2))
                        })
                        &&& (k == Some(Kind::Header) ==> {
                            &&& (r matches Ok(e) ==> e matches XDFElement::XDFHeader(_))
                            &&& (r matches Ok(_) ==> i + 1 < p2 <= events.len()
                                && (events[p2 - 1] matches Event::TagClose { name: n2 }
                                && resolve_spec(n2@, d) == Some(Kind::Header)))
                            &&& (i + 1 < events.len() && (events[i + 1] matches
                                Event::TagClose { name: n2 } && resolve_spec(n2@, d)
                                == Some(Kind::Header)) ==> (r matches Ok(e) && (e matches XDFElement::XDFHeader(h)
                                && h.deftitle is None && h.description is None
                                && h.fileversion is None && h.author is None
                                && h.baseoffset is None && h.defaults is None
                                && h.region is None && h.flags is None && h.category is None) && p2 == i + 2))
                        })
                        &&& (k == Some(Kind::Axis) ==> {
                            &&& (r matches Ok(e) ==> e matches XDFElement::XDFAxis(a)
                                && opt_str_is(a.id, attr_val(attrs, "id"@))
                                && a.uid == attr_int(attrs, "uniqueid"@))
                            &&& (r matches Ok(_) ==> i + 1 < p2 <= events.len()
                                && (events[p2 - 1] matches Event::TagClose { name: n2 }
                                && resolve_spec(n2@, d) == Some(Kind::Axis)))
                            &&& (i + 1 < events.len() && (events[i + 1] matches
                                Event::TagClose { name: n2 } && resolve_spec(n2@, d)
                                == Some(Kind::Axis)) ==> (r matches Ok(e) && (e matches XDFElement::XDFAxis(a)
                                && a.embeddeddata is None && a.math is None && a.min is None
                                && a.max is None && a.count is None && a.labels@.len() == 0) && p2 == i + 2))
                        })
                        &&& (k == Some(Kind::Constant) ==> {
                            &&& (r matches Ok(e) ==> e matches XDFElement::XDFConstant(c)
                                && opt_str_is(c.uid, attr_val(attrs, "uniqueid"@)))
                            &&& (r matches Ok(_) ==> i + 1 < p2 <= events.len()
                                && (events[p2 - 1] matches Event::TagClose { name: n2 }
                                && resolve_spec(n2@, d) == Some(Kind::Constant)))
                            &&& (i + 1 < events.len() && (events[i + 1] matches
                                Event::TagClose { name: n2 } && resolve_spec(n2@, d)
                                == Some(Kind::Constant)) ==> (r matches Ok(e) && (e matches XDFElement::XDFConstant(c)
                                && c.title is None && c.embedded_data is None && c.math is None
                                && c.dalink_index is None) && p2 == i + 2))
                        })
}

/// Everything one dispatcher step promises, as a relation between the
/// event stream, the start and end cursor positions, and the result: the
/// complete stated behavior of [`XDFElement::from_xml`].
pub open spec fn parse_step_post(
    events: Seq<Event>,
    p0: int,
    p2: int,
    r: Result<XDFElement, Error>,
    d: Dialect,
) -> bool {

                let i = dispatch_pos(events, p0, d);
                &&& (i >= events.len() ==> r == Err::<XDFElement, Error>(
                    Error::UnexpectedEvent(None),
                ) && p2 == i)
                &&& (i < events.len() ==> (match events[i] {
                    Event::DocStart => false,
                    Event::DocEnd => r matches Err(e) && (e matches Error::UnexpectedEvent(pl)
                        && (pl matches Some(e2) && event_like(e2, events[i]))) && p2 == i + 1,
                    Event::Other => r matches Err(e) && (e matches Error::UnexpectedEvent(pl)
                        && (pl matches Some(e2) && event_like(e2, events[i]))) && p2 == i + 1,
                    Event::Text { .. } => r matches Err(e) && (e matches Error::UnexpectedEvent(pl)
                        && (pl matches Some(e2) && event_like(e2, events[i]))) && p2 == i + 1,
                    Event::TagClose { name } => r matches Ok(e) && e matches XDFElement::End(n)
                        && n@ == name@ && p2 == i + 1,
                    Event::TagOpen { name, attrs } => {
                        &&& resolve_spec(name@, d) != Some(Kind::Skip)
                        &&& open_post(events, i, name@, attrs@, d, r, p2)
                    },
                }))
            
}

impl XDFElement {
    /// Read the next logical element from the cursor: a whole document when
    /// positioned at its start, or the single element (with all its
    /// children) that starts there.  A tag-open whose name the active
    /// dialect does not recognize fails with `UnknownType`, producing no
    /// partial tree; a declared ignorable container is skipped as a unit.
    #[verifier::rlimit(100)]
    #[verifier::spinoff_prover]
    pub fn from_xml(events: &Vec<Event>, pos: &mut usize, d: Dialect) -> (r: Result<
        XDFElement,
        Error,
    >)
        requires
            *old(pos) <= events@.len(),
        ensures
            *old(pos) <= *final(pos) <= events@.len(),
            (r matches Ok(_) ==> *final(pos) > *old(pos)),
            (r matches Ok(e) ==> (exists|tr: ParseTrace| elem_tr(
                events@,
                *old(pos) as int,
                d,
                e,
                *final(pos) as int,
                tr,
            ))),
            (r matches Err(err) ==> (exists|et: ErrTrace| elem_err_tr(
                events@,
                *old(pos) as int,
                d,
                err,
                *final(pos) as int,
                et,
            ))),
            parse_step_post(events@, *old(pos) as int, *final(pos) as int, r, d),
        decreases events@.len() - *old(pos) as int, 0int,
    {
        if *pos >= events.len() {
            proof {
                assert(elem_err_tr(
                    events@,
                    *old(pos) as int,
                    d,
                    Error::UnexpectedEvent(None),
                    *pos as int,
                    ErrTrace::Here,
                ));
            }
            return Err(Error::UnexpectedEvent(None));
        }
        let idx = *pos;
        proof {
            lemma_dispatch_pos_bounds(events@, idx as int, d);
        }
        match &events[idx] {
            Event::DocStart => {
                *pos = idx + 1;
                let r = Self::from_xml(events, pos, d);
                proof {
                    let gr = r;
                    match gr {
                        Ok(e) => {
                            let tr = choose|tr: ParseTrace| #[trigger] elem_tr(events@, idx + 1, d, e, *pos as int, tr);
                            assert(elem_tr(events@, idx as int, d, e, *pos as int, tr));
                        },
                        Err(ge2) => {
                            let et = choose|et: ErrTrace| #[trigger] elem_err_tr(
                                events@,
                                idx + 1,
                                d,
                                ge2,
                                *pos as int,
                                et,
                            );
                            assert(elem_err_tr(events@, idx as int, d, ge2, *pos as int, et));
                        },
                    }
                }
                r
            },
            Event::DocEnd => {
                *pos = idx + 1;
                proof {
                    assert(elem_err_tr(
                        events@,
                        idx as int,
                        d,
                        Error::UnexpectedEvent(Some(Event::DocEnd)),
                        *pos as int,
                        ErrTrace::Here,
                    ));
                }
                Err(Error::UnexpectedEvent(Some(Event::DocEnd)))
            },
            Event::Other => {
                *pos = idx + 1;
                proof {
                    assert(elem_err_tr(
                        events@,
                        idx as int,
                        d,
                        Error::UnexpectedEvent(Some(Event::Other)),
                        *pos as int,
                        ErrTrace::Here,
                    ));
                }
                Err(Error::UnexpectedEvent(Some(Event::Other)))
            },
            Event::Text { content } => {
                let c = content.clone();
                *pos = idx + 1;
                let e2v = Error::UnexpectedEvent(Some(Event::Text { content: c }));
                let ghost ge2 = e2v;
                proof {
                    assert(elem_err_tr(events@, idx as int, d, ge2, *pos as int, ErrTrace::Here));
                }
                Err(e2v)
            },
            Event::TagClose { name } => {
                let n = name.clone();
                *pos = idx + 1;
                let e = XDFElement::End(n);
                let ghost ge = e;
                proof {
                    assert(elem_tr(
                        events@,
                        idx as int,
                        d,
                        ge,
                        *pos as int,
                        ParseTrace::Leaf { end: *pos as int },
                    ));
                }
                Ok(e)
            },
            Event::TagOpen { name, attrs } => {
                match resolve_tag(name.as_str(), d) {
                    None => {
                        *pos = idx + 1;
                        proof {
                            assert(elem_err_tr(
                                events@,
                                idx as int,
                                d,
                                Error::UnknownType,
                                *pos as int,
                                ErrTrace::Here,
                            ));
                        }
                        Err(Error::UnknownType)
                    },
                    Some(Kind::Skip) => {
                        *pos = idx + 1;
                        skip_ignorable(events, pos);
                        let ghost pmid = *pos as int;
                        let r = Self::from_xml(events, pos, d);
                        proof {
                            let gr = r;
                            match gr {
                                Ok(e) => {
                                    let tr = choose|tr: ParseTrace| #[trigger] elem_tr(events@, pmid, d, e, *pos as int, tr);
                                    assert(elem_tr(events@, idx as int, d, e, *pos as int, tr));
                                },
                                Err(ge2) => {
                                    let et = choose|et: ErrTrace| #[trigger] elem_err_tr(
                                        events@,
                                        pmid,
                                        d,
                                        ge2,
                                        *pos as int,
                                        et,
                                    );
                                    assert(elem_err_tr(
                                        events@,
                                        idx as int,
                                        d,
                                        ge2,
                                        *pos as int,
                                        et,
                                    ));
                                },
                            }
                        }
                        r
                    },
                    Some(Kind::End) => {
                        proof {
                            assert(false);
                        }
                        Err(Error::UnknownType)
                    },
                    Some(k) => {
                        *pos = idx + 1;
                        let r = dispatch_open(events, pos, d, idx, k);
                        proof {
                            let gr = r;
                            if !is_composite(k) {
                                match gr {
                                    Ok(e) => {
                                        lemma_elem_tr_from_open_post(
                                            events@,
                                            idx as int,
                                            d,
                                            name@,
                                            attrs@,
                                            k,
                                            e,
                                            *pos as int,
                                        );
                                    },
                                    _ => {
                                    },
                                }
                            }
                        }
                        r
                    },
                }
            },
        }
    }
}




/// The error carries a produced element: `err` is `UnexpectedElement(e2)`
/// for an element the dispatcher yielded at `p`.
pub open spec fn elem_tr_of_err(
    events: Seq<Event>,
    p: int,
    d: Dialect,
    err: Error,
    q: int,
    etr: ParseTrace,
) -> bool {
    err matches Error::UnexpectedElement(e2) && elem_tr(events, p, d, e2, q, etr) && kind_of(e2)
        != Kind::End
}


/// Lift a failure of a composite's builder to a failure derivation of the
/// composite element itself.
proof fn lemma_comp_err_witness(
    events: Seq<Event>,
    idx: int,
    d: Dialect,
    k: Kind,
    err: Error,
    q: int,
)
    requires
        0 <= idx < events.len(),
        (events[idx] matches Event::TagOpen { name: n2, attrs: a2 } && resolve_spec(n2@, d)
            == Some(k)),
        is_composite(k),
        ({
            ||| (exists|cs: Seq<XDFElement>, subs2: Seq<ParseTrace>, pf: int, et: ErrTrace|
                #![trigger body_steps(events, idx + 1, d, k, cs, subs2, pf), elem_err_tr(events, pf, d, err, q, et)]
                {
                    &&& idx + 1 <= pf <= events.len()
                    &&& body_steps(events, idx + 1, d, k, cs, subs2, pf)
                    &&& elem_err_tr(events, pf, d, err, q, et)
                })
            ||| (exists|cs: Seq<XDFElement>, subs2: Seq<ParseTrace>, pf: int, etr: ParseTrace|
                #![trigger body_steps(events, idx + 1, d, k, cs, subs2, pf), elem_tr_of_err(events, pf, d, err, q, etr)]
                {
                    &&& idx + 1 <= pf <= events.len()
                    &&& body_steps(events, idx + 1, d, k, cs, subs2, pf)
                    &&& elem_tr_of_err(events, pf, d, err, q, etr)
                    &&& (err matches Error::UnexpectedElement(e2) ==> !child_allowed(
                        k,
                        kind_of(e2),
                    ))
                })
        }),
    ensures
        exists|et: ErrTrace| #[trigger] elem_err_tr(events, idx, d, err, q, et),
{
    if exists|cs: Seq<XDFElement>, subs2: Seq<ParseTrace>, pf: int, et: ErrTrace|
        #![trigger body_steps(events, idx + 1, d, k, cs, subs2, pf), elem_err_tr(events, pf, d, err, q, et)]
        {
            &&& idx + 1 <= pf <= events.len()
            &&& body_steps(events, idx + 1, d, k, cs, subs2, pf)
            &&& elem_err_tr(events, pf, d, err, q, et)
        } {
        let (cs, subs2, pf, et) = choose|
            cs: Seq<XDFElement>,
            subs2: Seq<ParseTrace>,
            pf: int,
            et: ErrTrace,
        |
            #![trigger body_steps(events, idx + 1, d, k, cs, subs2, pf), elem_err_tr(events, pf, d, err, q, et)]
            {
                &&& idx + 1 <= pf <= events.len()
                &&& body_steps(events, idx + 1, d, k, cs, subs2, pf)
                &&& elem_err_tr(events, pf, d, err, q, et)
            };
        assert(elem_err_tr(
            events,
            idx,
            d,
            err,
            q,
            ErrTrace::Inside { cs, subs: subs2, pf, sub: seq![et] },
        ));
    } else {
        let (cs, subs2, pf, etr) = choose|
            cs: Seq<XDFElement>,
            subs2: Seq<ParseTrace>,
            pf: int,
            etr: ParseTrace,
        |
            #![trigger body_steps(events, idx + 1, d, k, cs, subs2, pf), elem_tr_of_err(events, pf, d, err, q, etr)]
            {
                &&& idx + 1 <= pf <= events.len()
                &&& body_steps(events, idx + 1, d, k, cs, subs2, pf)
                &&& elem_tr_of_err(events, pf, d, err, q, etr)
                &&& (err matches Error::UnexpectedElement(e2) ==> !child_allowed(
                    k,
                    kind_of(e2),
                ))
            };
        match err {
            Error::UnexpectedElement(e2) => {
                assert(elem_err_tr(
                    events,
                    idx,
                    d,
                    err,
                    q,
                    ErrTrace::BadChild { cs, subs: subs2, pf, e2, etr },
                ));
            },
            _ => {
                assert(false);
            },
        }
    }
}

/// Lift a failure of the dispatch that should have produced an
/// attribute-only element's close marker to a failure derivation of the
/// element itself.
proof fn lemma_attr_err_witness(
    events: Seq<Event>,
    idx: int,
    d: Dialect,
    name: Seq<char>,
    attrs: Seq<Attr>,
    k: Kind,
    err: Error,
    q: int,
)
    requires
        0 <= idx < events.len(),
        (events[idx] matches Event::TagOpen { name: n2, attrs: a2 } && n2@ == name && a2@
            == attrs),
        resolve_spec(name, d) == Some(k),
        attr_only_ready(Some(k), attrs),
        ({
            ||| (exists|et: ErrTrace| #[trigger] elem_err_tr(events, idx + 1, d, err, q, et))
            ||| (exists|etr: ParseTrace| #[trigger] elem_tr_of_err(events, idx + 1, d, err, q, etr))
        }),
    ensures
        exists|et: ErrTrace| #[trigger] elem_err_tr(events, idx, d, err, q, et),
{
    if exists|et: ErrTrace| #[trigger] elem_err_tr(events, idx + 1, d, err, q, et) {
        let et = choose|et: ErrTrace| #[trigger] elem_err_tr(events, idx + 1, d, err, q, et);
        assert(elem_err_tr(events, idx, d, err, q, ErrTrace::Next { sub: seq![et] }));
    } else {
        let etr = choose|etr: ParseTrace| #[trigger] elem_tr_of_err(events, idx + 1, d, err, q, etr);
        match err {
            Error::UnexpectedElement(e2) => {
                assert(elem_err_tr(events, idx, d, err, q, ErrTrace::After { e2, etr }));
            },
            _ => {
                assert(false);
            },
        }
    }
}

/// Handle one recognized, non-ignorable tag-open whose opening event at
/// `idx` has already been consumed: decode a leaf, build an attribute-only
/// element and require its close, or collect and assemble a composite.
#[verifier::rlimit(100)]
#[verifier::spinoff_prover]
fn dispatch_open(events: &Vec<Event>, pos: &mut usize, d: Dialect, idx: usize, k: Kind) -> (r:
    Result<XDFElement, Error>)
    requires
        idx < events@.len(),
        *old(pos) as int == idx + 1,
        (events@[idx as int] matches Event::TagOpen { name, attrs } && resolve_spec(name@, d)
            == Some(k)),
        k != Kind::Skip,
        k != Kind::End,
    ensures
        *old(pos) <= *final(pos) <= events@.len(),
        (is_composite(k) ==> (r matches Ok(e) ==> (exists|tr: ParseTrace| elem_tr(
            events@,
            idx as int,
            d,
            e,
            *final(pos) as int,
            tr,
        )))),
        (r matches Err(err) ==> (exists|et: ErrTrace| #[trigger] elem_err_tr(
            events@,
            idx as int,
            d,
            err,
            *final(pos) as int,
            et,
        ))),
        (events@[idx as int] matches Event::TagOpen { name, attrs } ==> open_post(
            events@,
            idx as int,
            name@,
            attrs@,
            d,
            r,
            *final(pos) as int,
        )),
    decreases events@.len() - *old(pos) as int, 2int,
{
    match &events[idx] {
        Event::TagOpen { name, attrs } => {
            match k {
                            Kind::Title => {
                                        match extract_text(events, pos) {
                                    Err(e) => {
                                        let ghost ge2 = e;
                                        proof {
                                            assert(elem_err_tr(
                                                events@,
                                                idx as int,
                                                d,
                                                ge2,
                                                *pos as int,
                                                ErrTrace::Here,
                                            ));
                                        }
                                        Err(e)
                                    },
                                    Ok(s) => Ok(XDFElement::Title(s)),
                                }
                            },
                            Kind::Description => {
                                        match extract_text(events, pos) {
                                    Err(e) => {
                                        let ghost ge2 = e;
                                        proof {
                                            assert(elem_err_tr(
                                                events@,
                                                idx as int,
                                                d,
                                                ge2,
                                                *pos as int,
                                                ErrTrace::Here,
                                            ));
                                        }
                                        Err(e)
                                    },
                                    Ok(s) => Ok(XDFElement::Description(s)),
                                }
                            },
                            Kind::Units => {
                                        match extract_text(events, pos) {
                                    Err(e) => {
                                        let ghost ge2 = e;
                                        proof {
                                            assert(elem_err_tr(
                                                events@,
                                                idx as int,
                                                d,
                                                ge2,
                                                *pos as int,
                                                ErrTrace::Here,
                                            ));
                                        }
                                        Err(e)
                                    },
                                    Ok(s) => Ok(XDFElement::Units(s)),
                                }
                            },
                            Kind::Author => {
                                        match extract_text(events, pos) {
                                    Err(e) => {
                                        let ghost ge2 = e;
                                        proof {
                                            assert(elem_err_tr(
                                                events@,
                                                idx as int,
                                                d,
                                                ge2,
                                                *pos as int,
                                                ErrTrace::Here,
                                            ));
                                        }
                                        Err(e)
                                    },
                                    Ok(s) => Ok(XDFElement::Author(s)),
                                }
                            },
                            Kind::FileVersion => {
                                        match extract_text(events, pos) {
                                    Err(e) => {
                                        let ghost ge2 = e;
                                        proof {
                                            assert(elem_err_tr(
                                                events@,
                                                idx as int,
                                                d,
                                                ge2,
                                                *pos as int,
                                                ErrTrace::Here,
                                            ));
                                        }
                                        Err(e)
                                    },
                                    Ok(s) => Ok(XDFElement::FileVersion(s)),
                                }
                            },
                            Kind::IndexCount => {
                                        match leaf_dec_u32(events, pos) {
                                    Err(e) => {
                                        let ghost ge2 = e;
                                        proof {
                                            assert(elem_err_tr(
                                                events@,
                                                idx as int,
                                                d,
                                                ge2,
                                                *pos as int,
                                                ErrTrace::Here,
                                            ));
                                        }
                                        Err(e)
                                    },
                                    Ok(v) => Ok(XDFElement::IndexCount(v)),
                                }
                            },
                            Kind::DataType => {
                                        match leaf_dec_u32(events, pos) {
                                    Err(e) => {
                                        let ghost ge2 = e;
                                        proof {
                                            assert(elem_err_tr(
                                                events@,
                                                idx as int,
                                                d,
                                                ge2,
                                                *pos as int,
                                                ErrTrace::Here,
                                            ));
                                        }
                                        Err(e)
                                    },
                                    Ok(v) => Ok(XDFElement::DataType(v)),
                                }
                            },
                            Kind::UnitType => {
                                        match leaf_dec_u32(events, pos) {
                                    Err(e) => {
                                        let ghost ge2 = e;
                                        proof {
                                            assert(elem_err_tr(
                                                events@,
                                                idx as int,
                                                d,
                                                ge2,
                                                *pos as int,
                                                ErrTrace::Here,
                                            ));
                                        }
                                        Err(e)
                                    },
                                    Ok(v) => Ok(XDFElement::UnitType(v)),
                                }
                            },
                            Kind::DecimalPl => {
                                        match leaf_dec_u32(events, pos) {
                                    Err(e) => {
                                        let ghost ge2 = e;
                                        proof {
                                            assert(elem_err_tr(
                                                events@,
                                                idx as int,
                                                d,
                                                ge2,
                                                *pos as int,
                                                ErrTrace::Here,
                                            ));
                                        }
                                        Err(e)
                                    },
                                    Ok(v) => Ok(XDFElement::DecimalPl(v)),
                                }
                            },
                            Kind::OutputType => {
                                        match leaf_int_u32(events, pos) {
                                    Err(e) => {
                                        let ghost ge2 = e;
                                        proof {
                                            assert(elem_err_tr(
                                                events@,
                                                idx as int,
                                                d,
                                                ge2,
                                                *pos as int,
                                                ErrTrace::Here,
                                            ));
                                        }
                                        Err(e)
                                    },
                                    Ok(v) => Ok(XDFElement::OutputType(v)),
                                }
                            },
                            Kind::Flags => {
                                        match leaf_int_u32(events, pos) {
                                    Err(e) => {
                                        let ghost ge2 = e;
                                        proof {
                                            assert(elem_err_tr(
                                                events@,
                                                idx as int,
                                                d,
                                                ge2,
                                                *pos as int,
                                                ErrTrace::Here,
                                            ));
                                        }
                                        Err(e)
                                    },
                                    Ok(v) => Ok(XDFElement::Flags(v)),
                                }
                            },
                            Kind::Min => {
                                        match extract_text(events, pos) {
                                    Err(e) => {
                                        let ghost ge2 = e;
                                        proof {
                                            assert(elem_err_tr(
                                                events@,
                                                idx as int,
                                                d,
                                                ge2,
                                                *pos as int,
                                                ErrTrace::Here,
                                            ));
                                        }
                                        Err(e)
                                    },
                                    Ok(s) => if is_float_literal(s.as_str()) {
                                        Ok(XDFElement::Min(s))
                                    } else {
                                        proof {
                                            assert(elem_err_tr(
                                                events@,
                                                idx as int,
                                                d,
                                                Error::BadValue,
                                                *pos as int,
                                                ErrTrace::Here,
                                            ));
                                        }
                                        Err(Error::BadValue)
                                    },
                                }
                            },
                            Kind::Max => {
                                        match extract_text(events, pos) {
                                    Err(e) => {
                                        let ghost ge2 = e;
                                        proof {
                                            assert(elem_err_tr(
                                                events@,
                                                idx as int,
                                                d,
                                                ge2,
                                                *pos as int,
                                                ErrTrace::Here,
                                            ));
                                        }
                                        Err(e)
                                    },
                                    Ok(s) => if is_float_literal(s.as_str()) {
                                        Ok(XDFElement::Max(s))
                                    } else {
                                        proof {
                                            assert(elem_err_tr(
                                                events@,
                                                idx as int,
                                                d,
                                                Error::BadValue,
                                                *pos as int,
                                                ErrTrace::Here,
                                            ));
                                        }
                                        Err(Error::BadValue)
                                    },
                                }
                            },
                            Kind::BaseOffset => {
                                        let direct = attr_dec_u32_x(attrs, "offset");
                                match direct {
                                    Some(v) => Ok(XDFElement::BaseOffset(v)),
                                    None => match leaf_int_u32(events, pos) {
                                        Err(e) => {
                                        let ghost ge2 = e;
                                        proof {
                                            assert(elem_err_tr(
                                                events@,
                                                idx as int,
                                                d,
                                                ge2,
                                                *pos as int,
                                                ErrTrace::Here,
                                            ));
                                        }
                                        Err(e)
                                    },
                                        Ok(v) => Ok(XDFElement::BaseOffset(v)),
                                    },
                                }
                            },
                            Kind::DALink => {
                                match get_attr(attrs, "index") {
                                    None => {
                                        proof {
                                            assert(elem_err_tr(
                                                events@,
                                                idx as int,
                                                d,
                                                Error::MissingItem,
                                                *pos as int,
                                                ErrTrace::Here,
                                            ));
                                        }
                                        Err(Error::MissingItem)
                                    },
                                    Some(v) => match parse_dec_u32(v.as_str()) {
                                        None => {
                                            proof {
                                                assert(elem_err_tr(
                                                    events@,
                                                    idx as int,
                                                    d,
                                                    Error::BadValue,
                                                    *pos as int,
                                                    ErrTrace::Here,
                                                ));
                                            }
                                            Err(Error::BadValue)
                                        },
                                        Some(n) => {
                                            let r2 = finish_single(
                                                events,
                                                pos,
                                                d,
                                                XDFElement::DALink(n),
                                            );
                                            proof {
                                                let gr2 = r2;
                                                match gr2 {
                                                    Err(ge2) => {
                                                        lemma_attr_err_witness(
                                                            events@,
                                                            idx as int,
                                                            d,
                                                            name@,
                                                            attrs@,
                                                            k,
                                                            ge2,
                                                            *pos as int,
                                                        );
                                                    },
                                                    _ => {
                                                    },
                                                }
                                            }
                                            r2
                                        },
                                    },
                                }
                            },
                            Kind::Var => {
                                match get_attr(attrs, "id") {
                                    None => {
                                        proof {
                                            assert(elem_err_tr(
                                                events@,
                                                idx as int,
                                                d,
                                                Error::MissingItem,
                                                *pos as int,
                                                ErrTrace::Here,
                                            ));
                                        }
                                        Err(Error::MissingItem)
                                    },
                                    Some(v) => {
                                        let r2 = finish_single(events, pos, d, XDFElement::Var(v));
                                        proof {
                                            let gr2 = r2;
                                            match gr2 {
                                                Err(ge2) => {
                                                    lemma_attr_err_witness(
                                                        events@,
                                                        idx as int,
                                                        d,
                                                        name@,
                                                        attrs@,
                                                        k,
                                                        ge2,
                                                        *pos as int,
                                                    );
                                                },
                                                _ => {
                                                },
                                            }
                                        }
                                        r2
                                    },
                                }
                            },
                            Kind::EmbedInfo => {
                                let v = embedinfo_from_attrs(attrs);
                                let r2 = finish_single(events, pos, d, XDFElement::EmbedInfo(v));
                                proof {
                                    let gr2 = r2;
                                    match gr2 {
                                        Err(ge2) => {
                                            lemma_attr_err_witness(
                                                events@,
                                                idx as int,
                                                d,
                                                name@,
                                                attrs@,
                                                k,
                                                ge2,
                                                *pos as int,
                                            );
                                        },
                                        _ => {
                                        },
                                    }
                                }
                                r2
                            },
                            Kind::Defaults => {
                                let v = defaults_from_attrs(attrs);
                                let r2 = finish_single(events, pos, d, XDFElement::Defaults(v));
                                proof {
                                    let gr2 = r2;
                                    match gr2 {
                                        Err(ge2) => {
                                            lemma_attr_err_witness(
                                                events@,
                                                idx as int,
                                                d,
                                                name@,
                                                attrs@,
                                                k,
                                                ge2,
                                                *pos as int,
                                            );
                                        },
                                        _ => {
                                        },
                                    }
                                }
                                r2
                            },
                            Kind::Category => {
                                let v = category_from_attrs(attrs);
                                let r2 = finish_single(events, pos, d, XDFElement::Category(v));
                                proof {
                                    let gr2 = r2;
                                    match gr2 {
                                        Err(ge2) => {
                                            lemma_attr_err_witness(
                                                events@,
                                                idx as int,
                                                d,
                                                name@,
                                                attrs@,
                                                k,
                                                ge2,
                                                *pos as int,
                                            );
                                        },
                                        _ => {
                                        },
                                    }
                                }
                                r2
                            },
                            Kind::Region => {
                                let v = region_from_attrs(attrs);
                                let r2 = finish_single(events, pos, d, XDFElement::Region(v));
                                proof {
                                    let gr2 = r2;
                                    match gr2 {
                                        Err(ge2) => {
                                            lemma_attr_err_witness(
                                                events@,
                                                idx as int,
                                                d,
                                                name@,
                                                attrs@,
                                                k,
                                                ge2,
                                                *pos as int,
                                            );
                                        },
                                        _ => {
                                        },
                                    }
                                }
                                r2
                            },
                            Kind::CategoryMem => {
                                let v = catmem_from_attrs(attrs);
                                let r2 = finish_single(events, pos, d, XDFElement::CategoryMem(v));
                                proof {
                                    let gr2 = r2;
                                    match gr2 {
                                        Err(ge2) => {
                                            lemma_attr_err_witness(
                                                events@,
                                                idx as int,
                                                d,
                                                name@,
                                                attrs@,
                                                k,
                                                ge2,
                                                *pos as int,
                                            );
                                        },
                                        _ => {
                                        },
                                    }
                                }
                                r2
                            },
                            Kind::EmbeddedData => {
                                let v = embedded_from_attrs(attrs);
                                let r2 = finish_single(events, pos, d, XDFElement::EmbeddedData(v));
                                proof {
                                    let gr2 = r2;
                                    match gr2 {
                                        Err(ge2) => {
                                            lemma_attr_err_witness(
                                                events@,
                                                idx as int,
                                                d,
                                                name@,
                                                attrs@,
                                                k,
                                                ge2,
                                                *pos as int,
                                            );
                                        },
                                        _ => {
                                        },
                                    }
                                }
                                r2
                            },
                            Kind::Label => {
                                let v = label_from_attrs(attrs);
                                let r2 = finish_single(events, pos, d, XDFElement::Label(v));
                                proof {
                                    let gr2 = r2;
                                    match gr2 {
                                        Err(ge2) => {
                                            lemma_attr_err_witness(
                                                events@,
                                                idx as int,
                                                d,
                                                name@,
                                                attrs@,
                                                k,
                                                ge2,
                                                *pos as int,
                                            );
                                        },
                                        _ => {
                                        },
                                    }
                                }
                                r2
                            },
                            Kind::Math => {
                let expr = get_attr(attrs, "equation");
                        let (rc, g) = collect_children(events, pos, d, Kind::Math);
                                match rc {
                                    Err(e) => {
                                        let ghost ge2 = e;
                                        proof {
                                            lemma_comp_err_witness(
                                                events@,
                                                idx as int,
                                                d,
                                                k,
                                                ge2,
                                                *pos as int,
                                            );
                                        }
                                        Err(e)
                                    },
                                    Ok(children) => {
                                        let ghost gcs = children@;
                                        let e = XDFElement::Math(assemble_math(expr, children));
                                        let ghost ge = e;
                                        proof {
                                            let tr = ParseTrace::Comp {
                                                end: *pos as int,
                                                cs: gcs,
                                                subs: g@.0,
                                                pc: g@.1,
                                            };
                                            assert(elem_tr(
                                                events@,
                                                idx as int,
                                                d,
                                                ge,
                                                *pos as int,
                                                tr,
                                            ));
                                        }
                                        Ok(e)
                                    },
                                }
                            },
                            Kind::Format => {
                let version = get_attr(attrs, "version");
                        let (rc, g) = collect_children(events, pos, d, Kind::Format);
                                match rc {
                                    Err(e) => {
                                        let ghost ge2 = e;
                                        proof {
                                            lemma_comp_err_witness(
                                                events@,
                                                idx as int,
                                                d,
                                                k,
                                                ge2,
                                                *pos as int,
                                            );
                                        }
                                        Err(e)
                                    },
                                    Ok(children) => {
                                        let ghost gcs = children@;
                                        let e = XDFElement::XDFFormat(assemble_format(version, children));
                                        let ghost ge = e;
                                        proof {
                                            let tr = ParseTrace::Comp {
                                                end: *pos as int,
                                                cs: gcs,
                                                subs: g@.0,
                                                pc: g@.1,
                                            };
                                            assert(elem_tr(
                                                events@,
                                                idx as int,
                                                d,
                                                ge,
                                                *pos as int,
                                                tr,
                                            ));
                                        }
                                        Ok(e)
                                    },
                                }
                            },
                            Kind::Table => {
                let uid = attr_int_x(attrs, "uniqueid");
                        let (rc, g) = collect_children(events, pos, d, Kind::Table);
                                match rc {
                                    Err(e) => {
                                        let ghost ge2 = e;
                                        proof {
                                            lemma_comp_err_witness(
                                                events@,
                                                idx as int,
                                                d,
                                                k,
                                                ge2,
                                                *pos as int,
                                            );
                                        }
                                        Err(e)
                                    },
                                    Ok(children) => {
                                        let ghost gcs = children@;
                                        let e = XDFElement::XDFTable(assemble_table(uid, children));
                                        let ghost ge = e;
                                        proof {
                                            let tr = ParseTrace::Comp {
                                                end: *pos as int,
                                                cs: gcs,
                                                subs: g@.0,
                                                pc: g@.1,
                                            };
                                            assert(elem_tr(
                                                events@,
                                                idx as int,
                                                d,
                                                ge,
                                                *pos as int,
                                                tr,
                                            ));
                                        }
                                        Ok(e)
                                    },
                                }
                            },
                            Kind::Header => {
                                let (rc, g) = collect_children(events, pos, d, Kind::Header);
                                match rc {
                                    Err(e) => {
                                        let ghost ge2 = e;
                                        proof {
                                            lemma_comp_err_witness(
                                                events@,
                                                idx as int,
                                                d,
                                                k,
                                                ge2,
                                                *pos as int,
                                            );
                                        }
                                        Err(e)
                                    },
                                    Ok(children) => {
                                        let ghost gcs = children@;
                                        let e = XDFElement::XDFHeader(assemble_header(children));
                                        let ghost ge = e;
                                        proof {
                                            let tr = ParseTrace::Comp {
                                                end: *pos as int,
                                                cs: gcs,
                                                subs: g@.0,
                                                pc: g@.1,
                                            };
                                            assert(elem_tr(
                                                events@,
                                                idx as int,
                                                d,
                                                ge,
                                                *pos as int,
                                                tr,
                                            ));
                                        }
                                        Ok(e)
                                    },
                                }
                            },
                            Kind::Axis => {
                let id = get_attr(attrs, "id");
                                let uid = attr_int_x(attrs, "uniqueid");
                        let (rc, g) = collect_children(events, pos, d, Kind::Axis);
                                match rc {
                                    Err(e) => {
                                        let ghost ge2 = e;
                                        proof {
                                            lemma_comp_err_witness(
                                                events@,
                                                idx as int,
                                                d,
                                                k,
                                                ge2,
                                                *pos as int,
                                            );
                                        }
                                        Err(e)
                                    },
                                    Ok(children) => {
                                        let ghost gcs = children@;
                                        let e = XDFElement::XDFAxis(assemble_axis(id, uid, children));
                                        let ghost ge = e;
                                        proof {
                                            let tr = ParseTrace::Comp {
                                                end: *pos as int,
                                                cs: gcs,
                                                subs: g@.0,
                                                pc: g@.1,
                                            };
                                            assert(elem_tr(
                                                events@,
                                                idx as int,
                                                d,
                                                ge,
                                                *pos as int,
                                                tr,
                                            ));
                                        }
                                        Ok(e)
                                    },
                                }
                            },
                            Kind::Constant => {
                let uid = get_attr(attrs, "uniqueid");
                        let (rc, g) = collect_children(events, pos, d, Kind::Constant);
                                match rc {
                                    Err(e) => {
                                        let ghost ge2 = e;
                                        proof {
                                            lemma_comp_err_witness(
                                                events@,
                                                idx as int,
                                                d,
                                                k,
                                                ge2,
                                                *pos as int,
                                            );
                                        }
                                        Err(e)
                                    },
                                    Ok(children) => {
                                        let ghost gcs = children@;
                                        let e = XDFElement::XDFConstant(assemble_constant(uid, children));
                                        let ghost ge = e;
                                        proof {
                                            let tr = ParseTrace::Comp {
                                                end: *pos as int,
                                                cs: gcs,
                                                subs: g@.0,
                                                pc: g@.1,
                                            };
                                            assert(elem_tr(
                                                events@,
                                                idx as int,
                                                d,
                                                ge,
                                                *pos as int,
                                                tr,
                                            ));
                                        }
                                        Ok(e)
                                    },
                                }
                            },
                _ => {
                    proof {
                        assert(false);
                    }
                    Err(Error::UnknownType)
                },
            }
        },
        _ => {
            proof {
                assert(false);
            }
            Err(Error::UnknownType)
        },
    }
}

/// Construct-then-close: the value is already complete; the very next
/// dispatcher result must be a close marker, else the parse fails with
/// `UnexpectedElement`.
fn finish_single(events: &Vec<Event>, pos: &mut usize, d: Dialect, value: XDFElement) -> (r:
    Result<XDFElement, Error>)
    requires
        *old(pos) <= events@.len(),
    ensures
        *old(pos) <= *final(pos) <= events@.len(),
        (r matches Ok(e) ==> e == value && *final(pos) > *old(pos)),
        (r matches Ok(e) ==> close_follows(events@, *old(pos) as int, d, *final(pos) as int)),
        (r matches Err(err) ==> ({
            ||| (exists|et: ErrTrace| #[trigger] elem_err_tr(
                events@,
                *old(pos) as int,
                d,
                err,
                *final(pos) as int,
                et,
            ))
            ||| (exists|etr: ParseTrace| #[trigger] elem_tr_of_err(
                events@,
                *old(pos) as int,
                d,
                err,
                *final(pos) as int,
                etr,
            ))
        })),
        ((*old(pos) < events@.len() && (events@[*old(pos) as int] matches Event::TagClose { .. }))
            ==> (r matches Ok(e) && e == value && *final(pos) == *old(pos) + 1)),
    decreases events@.len() - *old(pos) as int, 1int,
{
    match XDFElement::from_xml(events, pos, d) {
        Err(e) => Err(e),
        Ok(XDFElement::End(_)) => Ok(value),
        Ok(other) => {
            let ghost go = other;
            proof {
                let tr = choose|tr: ParseTrace| #[trigger] elem_tr(
                    events@,
                    *old(pos) as int,
                    d,
                    go,
                    *pos as int,
                    tr,
                );
                assert(kind_of(go) != Kind::End);
                assert(elem_tr_of_err(
                    events@,
                    *old(pos) as int,
                    d,
                    Error::UnexpectedElement(go),
                    *pos as int,
                    tr,
                ));
            }
            Err(Error::UnexpectedElement(other))
        },
    }
}


/// The generic builder loop: repeatedly dispatch and route each produced
/// child until the close marker of `container` is seen.  A close marker
/// with any other name is ignored and looping continues; a child of an
/// undeclared kind aborts the parse with `UnexpectedElement`.
#[verifier::loop_isolation(false)]
fn collect_children(events: &Vec<Event>, pos: &mut usize, d: Dialect, container: Kind) -> (r: (
    Result<Vec<XDFElement>, Error>,
    Ghost<(Seq<ParseTrace>, int)>,
))
    requires
        *old(pos) <= events@.len(),
    ensures
        *old(pos) <= *final(pos) <= events@.len(),
        (r.0 matches Ok(cs) ==> forall|j: int| 0 <= j < cs@.len() ==> child_allowed(
            container,
            kind_of(#[trigger] cs@[j]),
        )),
        (r.0 matches Ok(cs) ==> body_steps(
            events@,
            *old(pos) as int,
            d,
            container,
            cs@,
            r.1@.0,
            r.1@.1,
        ) && body_close(events@, r.1@.1, d, container, *final(pos) as int)),
        (r.0 matches Err(err) ==> ({
            ||| (exists|cs: Seq<XDFElement>, subs2: Seq<ParseTrace>, pf: int, et: ErrTrace|
                #![trigger body_steps(events@, *old(pos) as int, d, container, cs, subs2, pf), elem_err_tr(events@, pf, d, err, *final(pos) as int, et)]
                {
                    &&& *old(pos) <= pf <= events@.len()
                    &&& body_steps(events@, *old(pos) as int, d, container, cs, subs2, pf)
                    &&& elem_err_tr(events@, pf, d, err, *final(pos) as int, et)
                })
            ||| (exists|cs: Seq<XDFElement>, subs2: Seq<ParseTrace>, pf: int, etr: ParseTrace|
                #![trigger body_steps(events@, *old(pos) as int, d, container, cs, subs2, pf), elem_tr_of_err(events@, pf, d, err, *final(pos) as int, etr)]
                {
                    &&& *old(pos) <= pf <= events@.len()
                    &&& body_steps(events@, *old(pos) as int, d, container, cs, subs2, pf)
                    &&& elem_tr_of_err(events@, pf, d, err, *final(pos) as int, etr)
                    &&& (err matches Error::UnexpectedElement(e2) ==> !child_allowed(
                        container,
                        kind_of(e2),
                    ))
                })
        })),
        (r.0 matches Ok(_) ==> *old(pos) < *final(pos) && (events@[*final(pos) - 1] matches
            Event::TagClose { name } && resolve_spec(name@, d) == Some(container))),
        (*old(pos) < events@.len() ==> (events@[*old(pos) as int] matches Event::TagOpen {
            name,
            attrs,
        } ==> (resolve_spec(name@, d) != Some(Kind::Skip) ==> (r.0 matches Ok(cs) ==> cs@.len() > 0
            && (exists|q2: int| #[trigger] open_post(
            events@,
            *old(pos) as int,
            name@,
            attrs@,
            d,
            Ok(cs@[0]),
            q2,
        )))))),
        ((*old(pos) < events@.len() && (events@[*old(pos) as int] matches Event::TagClose { name }
            && resolve_spec(name@, d) == Some(container))) ==> (r.0 matches Ok(cs) && cs@.len()
            == 0 && *final(pos) == *old(pos) + 1)),
    decreases events@.len() - *old(pos) as int, 1int,
{
    let ghost p0 = *old(pos) as int;
    let mut out: Vec<XDFElement> = Vec::new();
    let ghost mut subs: Seq<ParseTrace> = Seq::empty();
    loop
        invariant
            p0 <= *pos as int <= events@.len(),
            subs.len() == out@.len(),
            body_steps(events@, p0, d, container, out@, subs, *pos as int),
            forall|j: int| 0 <= j < out@.len() ==> child_allowed(
                container,
                kind_of(#[trigger] out@[j]),
            ),
            *pos as int == p0 ==> out@.len() == 0,
            (p0 < events@.len() ==> (events@[p0] matches Event::TagOpen { name, attrs }
                ==> (resolve_spec(name@, d) != Some(Kind::Skip) ==> (*pos as int == p0 || (
            out@.len() > 0 && (exists|q2: int| #[trigger] open_post(
                events@,
                p0,
                name@,
                attrs@,
                d,
                Ok(out@[0]),
                q2,
            ))))))),
            ((p0 < events@.len() && (events@[p0] matches Event::TagClose { name } && resolve_spec(
                name@,
                d,
            ) == Some(container)))) ==> *pos as int == p0,
        decreases events@.len() - *pos as int,
    {
        let ghost pcur = *pos as int;
        match XDFElement::from_xml(events, pos, d) {
            Err(e) => {
                let ghost ge2 = e;
                proof {
                    let et = choose|et: ErrTrace| #[trigger] elem_err_tr(
                        events@,
                        pcur,
                        d,
                        ge2,
                        *pos as int,
                        et,
                    );
                    assert(body_steps(events@, p0, d, container, out@, subs, pcur));
                    assert(elem_err_tr(events@, pcur, d, ge2, *pos as int, et));
                }
                return (Err(e), Ghost((subs, 0int)));
            },
            Ok(el) => {
                let ghost gel = el;
                let k = el.kind();
                if k == Kind::End {
                    match el {
                        XDFElement::End(name) => {
                            let ghost gn = name;
                            match resolve_tag(name.as_str(), d) {
                                Some(kk) => {
                                    if kk == container {
                                        proof {
                                            assert(body_close(
                                                events@,
                                                pcur,
                                                d,
                                                container,
                                                *pos as int,
                                            ));
                                        }
                                        return (Ok(out), Ghost((subs, pcur)));
                                    }
                                    proof {
                                        lemma_body_steps_skip(
                                            events@,
                                            p0,
                                            d,
                                            container,
                                            out@,
                                            subs,
                                            pcur,
                                            *pos as int,
                                        );
                                    }
                                },
                                None => {
                                    proof {
                                        lemma_body_steps_skip(
                                            events@,
                                            p0,
                                            d,
                                            container,
                                            out@,
                                            subs,
                                            pcur,
                                            *pos as int,
                                        );
                                    }
                                },
                            }
                        },
                        _ => {
                            proof {
                                assert(false);
                            }
                        },
                    }
                    proof {
                        if pcur == p0 && p0 < events@.len() {
                            match events@[p0] {
                                Event::TagOpen { name: n0, attrs: a0 } => {
                                    if resolve_spec(n0@, d) != Some(Kind::Skip) {
                                        assert(open_post(
                                            events@,
                                            p0,
                                            n0@,
                                            a0@,
                                            d,
                                            Ok(gel),
                                            *pos as int,
                                        ));
                                        assert(false);
                                    }
                                },
                                _ => {
                                },
                            }
                        }
                    }
                } else if child_allowed_x(container, k) {
                    let ghost gout = out@;
                    proof {
                        let tr = choose|tr: ParseTrace| #[trigger] elem_tr(
                            events@,
                            pcur,
                            d,
                            gel,
                            *pos as int,
                            tr,
                        );
                        lemma_body_steps_child(
                            events@,
                            p0,
                            d,
                            container,
                            gout,
                            subs,
                            pcur,
                            gel,
                            *pos as int,
                            tr,
                        );
                        subs = subs.push(tr);
                    }
                    out.push(el);
                    proof {
                        if p0 < events@.len() {
                            match events@[p0] {
                                Event::TagOpen { name: n0, attrs: a0 } => {
                                    if resolve_spec(n0@, d) != Some(Kind::Skip) {
                                        if pcur == p0 {
                                            assert(open_post(
                                                events@,
                                                p0,
                                                n0@,
                                                a0@,
                                                d,
                                                Ok(gel),
                                                *pos as int,
                                            ));
                                            assert(out@[0] == gel);
                                        } else {
                                            assert(gout.len() > 0);
                                            assert(out@[0] == gout[0]);
                                        }
                                    }
                                },
                                _ => {
                                },
                            }
                        }
                    }
                } else {
                    proof {
                        let tr2 = choose|tr2: ParseTrace| #[trigger] elem_tr(
                            events@,
                            pcur,
                            d,
                            gel,
                            *pos as int,
                            tr2,
                        );
                        assert(body_steps(events@, p0, d, container, out@, subs, pcur));
                        assert(elem_tr_of_err(
                            events@,
                            pcur,
                            d,
                            Error::UnexpectedElement(gel),
                            *pos as int,
                            tr2,
                        ));
                    }
                    return (Err(Error::UnexpectedElement(el)), Ghost((subs, 0int)));
                }
            },
        }
        proof {
            if pcur == p0 {
                if p0 < events@.len() && (events@[p0] matches Event::TagClose { name }
                    && resolve_spec(name@, d) == Some(container)) {
                    assert(false);
                }
            }
        }
    }
}

} // verus!
