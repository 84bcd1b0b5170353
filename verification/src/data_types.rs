//! The typed element model: every value shape a parse step can produce.
//!
//! All entities are immutable value trees built once at parse time.  Fields
//! absent from the source document are an explicit `None`, never a default.
//! Numeric identifiers (unique ids, link ids, axis link indices) are plain
//! key values, not ownership edges; the format does not guarantee their
//! uniqueness, so resolving them is the caller's concern.
//!
//! A table's lowest-level bounds (`min`/`max`) are kept as the verbatim
//! decimal text of the document, checked against the float-literal grammar
//! at parse time; this core never evaluates them.

use vstd::prelude::*;

verus! {

/// How values are shown to the user.
#[derive(Debug, Clone, Copy, PartialEq, Eq)]
pub enum OutputType {
    Float,
    Integer,
    Hex,
    String,
}

/// Purpose unknown; attached to a header.
#[derive(Debug, Clone, PartialEq)]
pub struct Region {
    pub rtype: Option<u32>,
    pub startaddress: Option<u32>,
    pub size: Option<u32>,
    pub regionflags: Option<u32>,
}

/// Default display and storage configuration carried by a header.
#[derive(Debug, Clone, PartialEq)]
pub struct Defaults {
    pub datasizeinbits: Option<u32>,
    pub sigdigits: Option<u32>,
    pub outputtype: Option<u32>,
    pub signed: Option<u32>,
    pub lsbfirst: Option<u32>,
    pub float: Option<u32>,
}

/// Data category used when displaying items.
#[derive(Debug, Clone, PartialEq)]
pub struct Category {
    pub index: Option<u32>,
    pub name: Option<String>,
}

/// Header of a definition document: origin and defaults.
#[derive(Debug, Clone, PartialEq)]
pub struct XDFHeader {
    pub deftitle: Option<String>,
    pub description: Option<String>,
    pub fileversion: Option<String>,
    pub author: Option<String>,
    pub baseoffset: Option<u32>,
    pub defaults: Option<Defaults>,
    pub region: Option<Region>,
    pub flags: Option<u32>,
    pub category: Option<Category>,
}

/// An explicit label of an axis value, used when the axis is not backed by
/// the companion binary file.
#[derive(Debug, Clone, PartialEq)]
pub struct Label {
    pub index: Option<u32>,
    pub value: Option<String>,
}

/// Marks special handling of data embedding; `linkobjid` names the element
/// that holds the actual data.
#[derive(Debug, Clone, Copy, PartialEq)]
pub struct EmbedInfo {
    pub etype: Option<u32>,
    pub linkobjid: Option<u32>,
}

/// Conversion between a stored raw value and the displayed value: an ordered
/// list of variable names plus a textual expression.  Never evaluated here.
#[derive(Debug, Clone, PartialEq)]
pub struct Math {
    pub vars: Vec<String>,
    pub expression: Option<String>,
}

/// An (index, category) pair used for placement in a category tree.
#[derive(Debug, Clone, Copy, PartialEq)]
pub struct CategoryMem {
    pub index: Option<u32>,
    pub category: Option<u32>,
}

/// Where and how a value is stored in the companion binary file.  An absent
/// address means the value is not stored there at all.  With both a row and
/// a column count above one, storage is row-major in one flat byte range.
#[derive(Debug, Clone, Copy, PartialEq)]
pub struct EmbeddedData {
    pub mmedaddress: Option<u32>,
    pub mmedelementsizebits: Option<u32>,
    pub mmedmajorstridebits: Option<i32>,
    pub mmedminorstridebits: Option<i32>,
    pub mmedtypeflags: Option<u32>,
    pub mmedrowcount: Option<u32>,
    pub mmedcolcount: Option<u32>,
}

/// A single-valued constant: storage, conversion and display metadata
/// without an axis list.
#[derive(Debug, Clone, PartialEq)]
pub struct XDFConstant {
    pub title: Option<String>,
    pub description: Option<String>,
    pub catmem: Option<CategoryMem>,
    pub uid: Option<String>,
    pub embedded_data: Option<EmbeddedData>,
    pub decimalplaces: Option<u32>,
    pub datatype: Option<u32>,
    pub unittype: Option<u32>,
    pub outputtype: Option<u32>,
    pub unit: Option<String>,
    pub dalink_index: Option<u32>,
    pub math: Option<Math>,
}

/// One dimension of a table: either externally labeled or backed by an
/// `EmbeddedData`.  The two fields are independently optional; the format
/// does not enforce their exclusivity, and neither does this model.
/// `min` and `max` hold the verbatim float text of the document.
#[derive(Debug, Clone, PartialEq)]
pub struct XDFAxis {
    pub id: Option<String>,
    pub uid: Option<u32>,
    pub embeddeddata: Option<EmbeddedData>,
    pub datatype: Option<u32>,
    pub unittype: Option<u32>,
    pub dalink_index: Option<u32>,
    pub math: Option<Math>,
    pub count: Option<u32>,
    pub labels: Vec<Label>,
    pub min: Option<String>,
    pub max: Option<String>,
    pub outputtype: Option<u32>,
    pub decimalplaces: Option<u32>,
    pub unit: Option<String>,
    pub embedinfo: Option<EmbedInfo>,
}

/// A table: title, flags, optional description and category placement, and
/// an ordered list of axes in document order (commonly x, y, z).
#[derive(Debug, Clone, PartialEq)]
pub struct XDFTable {
    pub title: Option<String>,
    pub uid: Option<u32>,
    pub flags: Option<u32>,
    pub catmem: Option<CategoryMem>,
    pub description: Option<String>,
    pub axis: Vec<XDFAxis>,
}

/// The document root: version, optional header, and the constants and
/// tables in document order.
#[derive(Debug, Clone, PartialEq)]
pub struct XDFFormat {
    pub version: Option<String>,
    pub tables: Vec<XDFTable>,
    pub constants: Vec<XDFConstant>,
    pub header: Option<XDFHeader>,
}

/// One parsed element: the closed union of every tag kind the dispatcher can
/// produce.  `End` is the generic close marker, tagged with the closed name
/// as it appeared in the document.
#[derive(Debug, Clone, PartialEq)]
pub enum XDFElement {
    End(String),
    Title(String),
    Description(String),
    XDFHeader(XDFHeader),
    Region(Region),
    FileVersion(String),
    Author(String),
    Defaults(Defaults),
    Category(Category),
    XDFFormat(XDFFormat),
    Flags(u32),
    Label(Label),
    BaseOffset(u32),
    DALink(u32),
    DataType(u32),
    UnitType(u32),
    Units(String),
    Min(String),
    Max(String),
    OutputType(u32),
    DecimalPl(u32),
    EmbeddedData(EmbeddedData),
    CategoryMem(CategoryMem),
    Math(Math),
    Var(String),
    IndexCount(u32),
    EmbedInfo(EmbedInfo),
    XDFConstant(XDFConstant),
    XDFAxis(XDFAxis),
    XDFTable(XDFTable),
}

/// The kind of an element or of a recognized tag, without its payload.
#[derive(Debug, Clone, Copy, PartialEq, Eq, Structural)]
pub enum Kind {
    End,
    Title,
    Description,
    Header,
    Region,
    FileVersion,
    Author,
    Defaults,
    Category,
    Format,
    Flags,
    Label,
    BaseOffset,
    DALink,
    DataType,
    UnitType,
    Units,
    Min,
    Max,
    OutputType,
    DecimalPl,
    EmbeddedData,
    CategoryMem,
    Math,
    Var,
    IndexCount,
    EmbedInfo,
    Constant,
    Axis,
    Table,
    Skip,
}

pub open spec fn kind_of(e: XDFElement) -> Kind {
    match e {
        XDFElement::End(_) => Kind::End,
        XDFElement::Title(_) => Kind::Title,
        XDFElement::Description(_) => Kind::Description,
        XDFElement::XDFHeader(_) => Kind::Header,
        XDFElement::Region(_) => Kind::Region,
        XDFElement::FileVersion(_) => Kind::FileVersion,
        XDFElement::Author(_) => Kind::Author,
        XDFElement::Defaults(_) => Kind::Defaults,
        XDFElement::Category(_) => Kind::Category,
        XDFElement::XDFFormat(_) => Kind::Format,
        XDFElement::Flags(_) => Kind::Flags,
        XDFElement::Label(_) => Kind::Label,
        XDFElement::BaseOffset(_) => Kind::BaseOffset,
        XDFElement::DALink(_) => Kind::DALink,
        XDFElement::DataType(_) => Kind::DataType,
        XDFElement::UnitType(_) => Kind::UnitType,
        XDFElement::Units(_) => Kind::Units,
        XDFElement::Min(_) => Kind::Min,
        XDFElement::Max(_) => Kind::Max,
        XDFElement::OutputType(_) => Kind::OutputType,
        XDFElement::DecimalPl(_) => Kind::DecimalPl,
        XDFElement::EmbeddedData(_) => Kind::EmbeddedData,
        XDFElement::CategoryMem(_) => Kind::CategoryMem,
        XDFElement::Math(_) => Kind::Math,
        XDFElement::Var(_) => Kind::Var,
        XDFElement::IndexCount(_) => Kind::IndexCount,
        XDFElement::EmbedInfo(_) => Kind::EmbedInfo,
        XDFElement::XDFConstant(_) => Kind::Constant,
        XDFElement::XDFAxis(_) => Kind::Axis,
        XDFElement::XDFTable(_) => Kind::Table,
    }
}

impl XDFElement {
    /// The kind of this element.
    pub fn kind(&self) -> (k: Kind)
        ensures
            k == kind_of(*self),
    {
        match self {
            XDFElement::End(_) => Kind::End,
            XDFElement::Title(_) => Kind::Title,
            XDFElement::Description(_) => Kind::Description,
            XDFElement::XDFHeader(_) => Kind::Header,
            XDFElement::Region(_) => Kind::Region,
            XDFElement::FileVersion(_) => Kind::FileVersion,
            XDFElement::Author(_) => Kind::Author,
            XDFElement::Defaults(_) => Kind::Defaults,
            XDFElement::Category(_) => Kind::Category,
            XDFElement::XDFFormat(_) => Kind::Format,
            XDFElement::Flags(_) => Kind::Flags,
            XDFElement::Label(_) => Kind::Label,
            XDFElement::BaseOffset(_) => Kind::BaseOffset,
            XDFElement::DALink(_) => Kind::DALink,
            XDFElement::DataType(_) => Kind::DataType,
            XDFElement::UnitType(_) => Kind::UnitType,
            XDFElement::Units(_) => Kind::Units,
            XDFElement::Min(_) => Kind::Min,
            XDFElement::Max(_) => Kind::Max,
            XDFElement::OutputType(_) => Kind::OutputType,
            XDFElement::DecimalPl(_) => Kind::DecimalPl,
            XDFElement::EmbeddedData(_) => Kind::EmbeddedData,
            XDFElement::CategoryMem(_) => Kind::CategoryMem,
            XDFElement::Math(_) => Kind::Math,
            XDFElement::Var(_) => Kind::Var,
            XDFElement::IndexCount(_) => Kind::IndexCount,
            XDFElement::EmbedInfo(_) => Kind::EmbedInfo,
            XDFElement::XDFConstant(_) => Kind::Constant,
            XDFElement::XDFAxis(_) => Kind::Axis,
            XDFElement::XDFTable(_) => Kind::Table,
        }
    }
}

/// Which child kinds a container accepts.  Any other produced kind is a
/// structural violation that aborts the whole parse.
pub open spec fn child_allowed(container: Kind, child: Kind) -> bool {
    match container {
        Kind::Math => child == Kind::Var,
        Kind::Format => child == Kind::Header || child == Kind::Constant || child == Kind::Table,
        Kind::Table => child == Kind::Title || child == Kind::Flags || child == Kind::Description
            || child == Kind::CategoryMem || child == Kind::Axis,
        Kind::Header => child == Kind::Title || child == Kind::Description
            || child == Kind::BaseOffset || child == Kind::Defaults || child == Kind::Region
            || child == Kind::Flags || child == Kind::FileVersion || child == Kind::Author
            || child == Kind::Category,
        Kind::Axis => child == Kind::EmbeddedData || child == Kind::Min || child == Kind::Max
            || child == Kind::OutputType || child == Kind::DataType || child == Kind::UnitType
            || child == Kind::DALink || child == Kind::IndexCount || child == Kind::DecimalPl
            || child == Kind::Math || child == Kind::Units || child == Kind::EmbedInfo
            || child == Kind::Label,
        Kind::Constant => child == Kind::EmbeddedData || child == Kind::Title
            || child == Kind::Description || child == Kind::OutputType || child == Kind::DataType
            || child == Kind::DecimalPl || child == Kind::UnitType || child == Kind::Units
            || child == Kind::Math || child == Kind::DALink || child == Kind::CategoryMem,
        _ => false,
    }
}

/// Executable twin of [`child_allowed`].
pub fn child_allowed_x(container: Kind, child: Kind) -> (r: bool)
    ensures
        r == child_allowed(container, child),
{
    match container {
        Kind::Math => child == Kind::Var,
        Kind::Format => child == Kind::Header || child == Kind::Constant || child == Kind::Table,
        Kind::Table => child == Kind::Title || child == Kind::Flags || child == Kind::Description
            || child == Kind::CategoryMem || child == Kind::Axis,
        Kind::Header => child == Kind::Title || child == Kind::Description
            || child == Kind::BaseOffset || child == Kind::Defaults || child == Kind::Region
            || child == Kind::Flags || child == Kind::FileVersion || child == Kind::Author
            || child == Kind::Category,
        Kind::Axis => child == Kind::EmbeddedData || child == Kind::Min || child == Kind::Max
            || child == Kind::OutputType || child == Kind::DataType || child == Kind::UnitType
            || child == Kind::DALink || child == Kind::IndexCount || child == Kind::DecimalPl
            || child == Kind::Math || child == Kind::Units || child == Kind::EmbedInfo
            || child == Kind::Label,
        Kind::Constant => child == Kind::EmbeddedData || child == Kind::Title
            || child == Kind::Description || child == Kind::OutputType || child == Kind::DataType
            || child == Kind::DecimalPl || child == Kind::UnitType || child == Kind::Units
            || child == Kind::Math || child == Kind::DALink || child == Kind::CategoryMem,
        _ => false,
    }
}

/// The last child of the given kind, if any: singleton slots keep the last
/// occurrence of their kind.
pub open spec fn last_of_kind(cs: Seq<XDFElement>, k: Kind) -> Option<XDFElement>
    decreases cs.len(),
{
    if cs.len() == 0 {
        None
    } else if kind_of(cs.last()) == k {
        Some(cs.last())
    } else {
        last_of_kind(cs.drop_last(), k)
    }
}

/// All children of the given kind, in document order: list slots keep every
/// occurrence.
pub open spec fn all_of_kind(cs: Seq<XDFElement>, k: Kind) -> Seq<XDFElement>
    decreases cs.len(),
{
    if cs.len() == 0 {
        Seq::empty()
    } else {
        let rest = all_of_kind(cs.drop_last(), k);
        if kind_of(cs.last()) == k {
            rest.push(cs.last())
        } else {
            rest
        }
    }
}

pub proof fn lemma_last_of_kind_push(cs: Seq<XDFElement>, e: XDFElement, k: Kind)
    ensures
        last_of_kind(cs.push(e), k) == (if kind_of(e) == k {
            Some(e)
        } else {
            last_of_kind(cs, k)
        }),
{
    assert(cs.push(e).drop_last() =~= cs);
    assert(cs.push(e).last() == e);
}

pub proof fn lemma_all_of_kind_push(cs: Seq<XDFElement>, e: XDFElement, k: Kind)
    ensures
        all_of_kind(cs.push(e), k) == (if kind_of(e) == k {
            all_of_kind(cs, k).push(e)
        } else {
            all_of_kind(cs, k)
        }),
{
    assert(cs.push(e).drop_last() =~= cs);
    assert(cs.push(e).last() == e);
}

/// String payload of a leaf element, if the element is one of the
/// string-valued leaves.
pub open spec fn elem_str(o: Option<XDFElement>) -> Option<String> {
    match o {
        Some(XDFElement::Title(s)) => Some(s),
        Some(XDFElement::Description(s)) => Some(s),
        Some(XDFElement::Units(s)) => Some(s),
        Some(XDFElement::Author(s)) => Some(s),
        Some(XDFElement::FileVersion(s)) => Some(s),
        Some(XDFElement::Min(s)) => Some(s),
        Some(XDFElement::Max(s)) => Some(s),
        Some(XDFElement::Var(s)) => Some(s),
        _ => None,
    }
}

/// Numeric payload of a leaf element, if the element is one of the
/// number-valued leaves.
pub open spec fn elem_u32(o: Option<XDFElement>) -> Option<u32> {
    match o {
        Some(XDFElement::Flags(v)) => Some(v),
        Some(XDFElement::BaseOffset(v)) => Some(v),
        Some(XDFElement::DALink(v)) => Some(v),
        Some(XDFElement::DataType(v)) => Some(v),
        Some(XDFElement::UnitType(v)) => Some(v),
        Some(XDFElement::OutputType(v)) => Some(v),
        Some(XDFElement::DecimalPl(v)) => Some(v),
        Some(XDFElement::IndexCount(v)) => Some(v),
        _ => None,
    }
}

pub open spec fn elem_defaults(o: Option<XDFElement>) -> Option<Defaults> {
    match o {
        Some(XDFElement::Defaults(v)) => Some(v),
        _ => None,
    }
}

pub open spec fn elem_region(o: Option<XDFElement>) -> Option<Region> {
    match o {
        Some(XDFElement::Region(v)) => Some(v),
        _ => None,
    }
}

pub open spec fn elem_category(o: Option<XDFElement>) -> Option<Category> {
    match o {
        Some(XDFElement::Category(v)) => Some(v),
        _ => None,
    }
}

pub open spec fn elem_catmem(o: Option<XDFElement>) -> Option<CategoryMem> {
    match o {
        Some(XDFElement::CategoryMem(v)) => Some(v),
        _ => None,
    }
}

pub open spec fn elem_embedded(o: Option<XDFElement>) -> Option<EmbeddedData> {
    match o {
        Some(XDFElement::EmbeddedData(v)) => Some(v),
        _ => None,
    }
}

pub open spec fn elem_math(o: Option<XDFElement>) -> Option<Math> {
    match o {
        Some(XDFElement::Math(v)) => Some(v),
        _ => None,
    }
}

pub open spec fn elem_embedinfo(o: Option<XDFElement>) -> Option<EmbedInfo> {
    match o {
        Some(XDFElement::EmbedInfo(v)) => Some(v),
        _ => None,
    }
}

pub open spec fn elem_header(o: Option<XDFElement>) -> Option<XDFHeader> {
    match o {
        Some(XDFElement::XDFHeader(v)) => Some(v),
        _ => None,
    }
}

} // verus!
