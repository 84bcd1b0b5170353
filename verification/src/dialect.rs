//! The two tag-recognition dialects.
//!
//! Two historical naming conventions coexist: an older one whose tag names
//! are matched by exact case, and the current one whose names are matched
//! after folding ASCII letters to lower case.  Only one is active per
//! parse.  The two tables are kept as distinct configurations rather than
//! merged: real documents may depend on either behavior.

use vstd::prelude::*;
use crate::data_types::Kind;
use crate::text::{eq_fold, fold_seq, str_eq};

verus! {

/// Which tag table is active for a parse.
#[derive(Debug, Clone, Copy, PartialEq, Eq, Structural)]
pub enum Dialect {
    /// Exact-case names, as older documents write them.
    Legacy,
    /// Names matched after ASCII case folding, as current documents allow.
    Current,
}

/// The case-folded table: `n` is already folded to lower case.
pub open spec fn tag_kind_folded(n: Seq<char>) -> Option<Kind> {
    if n == "title"@ || n == "deftitle"@ {
        Some(Kind::Title)
    } else if n == "description"@ {
        Some(Kind::Description)
    } else if n == "units"@ {
        Some(Kind::Units)
    } else if n == "author"@ {
        Some(Kind::Author)
    } else if n == "fileversion"@ {
        Some(Kind::FileVersion)
    } else if n == "indexcount"@ {
        Some(Kind::IndexCount)
    } else if n == "datatype"@ {
        Some(Kind::DataType)
    } else if n == "unittype"@ {
        Some(Kind::UnitType)
    } else if n == "outputtype"@ {
        Some(Kind::OutputType)
    } else if n == "decimalpl"@ {
        Some(Kind::DecimalPl)
    } else if n == "flags"@ {
        Some(Kind::Flags)
    } else if n == "min"@ {
        Some(Kind::Min)
    } else if n == "max"@ {
        Some(Kind::Max)
    } else if n == "baseoffset"@ {
        Some(Kind::BaseOffset)
    } else if n == "dalink"@ {
        Some(Kind::DALink)
    } else if n == "var"@ {
        Some(Kind::Var)
    } else if n == "embedinfo"@ {
        Some(Kind::EmbedInfo)
    } else if n == "defaults"@ {
        Some(Kind::Defaults)
    } else if n == "category"@ {
        Some(Kind::Category)
    } else if n == "region"@ {
        Some(Kind::Region)
    } else if n == "categorymem"@ {
        Some(Kind::CategoryMem)
    } else if n == "embeddeddata"@ {
        Some(Kind::EmbeddedData)
    } else if n == "label"@ {
        Some(Kind::Label)
    } else if n == "math"@ {
        Some(Kind::Math)
    } else if n == "xdfformat"@ {
        Some(Kind::Format)
    } else if n == "xdftable"@ {
        Some(Kind::Table)
    } else if n == "xdfheader"@ {
        Some(Kind::Header)
    } else if n == "xdfaxis"@ {
        Some(Kind::Axis)
    } else if n == "xdfconstant"@ {
        Some(Kind::Constant)
    } else if n == "xdfpatch"@ || n == "xdfflag"@ || n == "xdfchecksum"@ {
        Some(Kind::Skip)
    } else {
        None
    }
}

/// The exact-case table of the older dialect: containers in upper case,
/// text leaves in lower case, as such documents write them.
pub open spec fn tag_kind_exact(n: Seq<char>) -> Option<Kind> {
    if n == "title"@ || n == "deftitle"@ {
        Some(Kind::Title)
    } else if n == "description"@ {
        Some(Kind::Description)
    } else if n == "units"@ {
        Some(Kind::Units)
    } else if n == "author"@ {
        Some(Kind::Author)
    } else if n == "fileversion"@ {
        Some(Kind::FileVersion)
    } else if n == "indexcount"@ {
        Some(Kind::IndexCount)
    } else if n == "datatype"@ {
        Some(Kind::DataType)
    } else if n == "unittype"@ {
        Some(Kind::UnitType)
    } else if n == "outputtype"@ {
        Some(Kind::OutputType)
    } else if n == "decimalpl"@ {
        Some(Kind::DecimalPl)
    } else if n == "flags"@ {
        Some(Kind::Flags)
    } else if n == "min"@ {
        Some(Kind::Min)
    } else if n == "max"@ {
        Some(Kind::Max)
    } else if n == "embedinfo"@ {
        Some(Kind::EmbedInfo)
    } else if n == "BASEOFFSET"@ {
        Some(Kind::BaseOffset)
    } else if n == "DALINK"@ {
        Some(Kind::DALink)
    } else if n == "VAR"@ {
        Some(Kind::Var)
    } else if n == "DEFAULTS"@ {
        Some(Kind::Defaults)
    } else if n == "CATEGORY"@ {
        Some(Kind::Category)
    } else if n == "REGION"@ {
        Some(Kind::Region)
    } else if n == "CATEGORYMEM"@ {
        Some(Kind::CategoryMem)
    } else if n == "EMBEDDEDDATA"@ {
        Some(Kind::EmbeddedData)
    } else if n == "LABEL"@ {
        Some(Kind::Label)
    } else if n == "MATH"@ {
        Some(Kind::Math)
    } else if n == "XDFFORMAT"@ {
        Some(Kind::Format)
    } else if n == "XDFTABLE"@ {
        Some(Kind::Table)
    } else if n == "XDFHEADER"@ {
        Some(Kind::Header)
    } else if n == "XDFAXIS"@ {
        Some(Kind::Axis)
    } else if n == "XDFCONSTANT"@ {
        Some(Kind::Constant)
    } else if n == "XDFPATCH"@ || n == "XDFFLAG"@ || n == "XDFCHECKSUM"@ {
        Some(Kind::Skip)
    } else {
        None
    }
}

/// Resolve a tag name under the active dialect.
pub open spec fn resolve_spec(n: Seq<char>, d: Dialect) -> Option<Kind> {
    match d {
        Dialect::Current => tag_kind_folded(fold_seq(n)),
        Dialect::Legacy => tag_kind_exact(n),
    }
}

/// Executable resolution of a tag name under the active dialect.
pub fn resolve_tag(name: &str, d: Dialect) -> (r: Option<Kind>)
    ensures
        r == resolve_spec(name@, d),
{
    match d {
        Dialect::Current => {
            if eq_fold(name, "title") || eq_fold(name, "deftitle") {
                Some(Kind::Title)
            } else if eq_fold(name, "description") {
                Some(Kind::Description)
            } else if eq_fold(name, "units") {
                Some(Kind::Units)
            } else if eq_fold(name, "author") {
                Some(Kind::Author)
            } else if eq_fold(name, "fileversion") {
                Some(Kind::FileVersion)
            } else if eq_fold(name, "indexcount") {
                Some(Kind::IndexCount)
            } else if eq_fold(name, "datatype") {
                Some(Kind::DataType)
            } else if eq_fold(name, "unittype") {
                Some(Kind::UnitType)
            } else if eq_fold(name, "outputtype") {
                Some(Kind::OutputType)
            } else if eq_fold(name, "decimalpl") {
                Some(Kind::DecimalPl)
            } else if eq_fold(name, "flags") {
                Some(Kind::Flags)
            } else if eq_fold(name, "min") {
                Some(Kind::Min)
            } else if eq_fold(name, "max") {
                Some(Kind::Max)
            } else if eq_fold(name, "baseoffset") {
                Some(Kind::BaseOffset)
            } else if eq_fold(name, "dalink") {
                Some(Kind::DALink)
            } else if eq_fold(name, "var") {
                Some(Kind::Var)
            } else if eq_fold(name, "embedinfo") {
                Some(Kind::EmbedInfo)
            } else if eq_fold(name, "defaults") {
                Some(Kind::Defaults)
            } else if eq_fold(name, "category") {
                Some(Kind::Category)
            } else if eq_fold(name, "region") {
                Some(Kind::Region)
            } else if eq_fold(name, "categorymem") {
                Some(Kind::CategoryMem)
            } else if eq_fold(name, "embeddeddata") {
                Some(Kind::EmbeddedData)
            } else if eq_fold(name, "label") {
                Some(Kind::Label)
            } else if eq_fold(name, "math") {
                Some(Kind::Math)
            } else if eq_fold(name, "xdfformat") {
                Some(Kind::Format)
            } else if eq_fold(name, "xdftable") {
                Some(Kind::Table)
            } else if eq_fold(name, "xdfheader") {
                Some(Kind::Header)
            } else if eq_fold(name, "xdfaxis") {
                Some(Kind::Axis)
            } else if eq_fold(name, "xdfconstant") {
                Some(Kind::Constant)
            } else if eq_fold(name, "xdfpatch") || eq_fold(name, "xdfflag")
                || eq_fold(name, "xdfchecksum") {
                Some(Kind::Skip)
            } else {
                None
            }
        },
        Dialect::Legacy => {
            if str_eq(name, "title") || str_eq(name, "deftitle") {
                Some(Kind::Title)
            } else if str_eq(name, "description") {
                Some(Kind::Description)
            } else if str_eq(name, "units") {
                Some(Kind::Units)
            } else if str_eq(name, "author") {
                Some(Kind::Author)
            } else if str_eq(name, "fileversion") {
                Some(Kind::FileVersion)
            } else if str_eq(name, "indexcount") {
                Some(Kind::IndexCount)
            } else if str_eq(name, "datatype") {
                Some(Kind::DataType)
            } else if str_eq(name, "unittype") {
                Some(Kind::UnitType)
            } else if str_eq(name, "outputtype") {
                Some(Kind::OutputType)
            } else if str_eq(name, "decimalpl") {
                Some(Kind::DecimalPl)
            } else if str_eq(name, "flags") {
                Some(Kind::Flags)
            } else if str_eq(name, "min") {
                Some(Kind::Min)
            } else if str_eq(name, "max") {
                Some(Kind::Max)
            } else if str_eq(name, "embedinfo") {
                Some(Kind::EmbedInfo)
            } else if str_eq(name, "BASEOFFSET") {
                Some(Kind::BaseOffset)
            } else if str_eq(name, "DALINK") {
                Some(Kind::DALink)
            } else if str_eq(name, "VAR") {
                Some(Kind::Var)
            } else if str_eq(name, "DEFAULTS") {
                Some(Kind::Defaults)
            } else if str_eq(name, "CATEGORY") {
                Some(Kind::Category)
            } else if str_eq(name, "REGION") {
                Some(Kind::Region)
            } else if str_eq(name, "CATEGORYMEM") {
                Some(Kind::CategoryMem)
            } else if str_eq(name, "EMBEDDEDDATA") {
                Some(Kind::EmbeddedData)
            } else if str_eq(name, "LABEL") {
                Some(Kind::Label)
            } else if str_eq(name, "MATH") {
                Some(Kind::Math)
            } else if str_eq(name, "XDFFORMAT") {
                Some(Kind::Format)
            } else if str_eq(name, "XDFTABLE") {
                Some(Kind::Table)
            } else if str_eq(name, "XDFHEADER") {
                Some(Kind::Header)
            } else if str_eq(name, "XDFAXIS") {
                Some(Kind::Axis)
            } else if str_eq(name, "XDFCONSTANT") {
                Some(Kind::Constant)
            } else if str_eq(name, "XDFPATCH") || str_eq(name, "XDFFLAG")
                || str_eq(name, "XDFCHECKSUM") {
                Some(Kind::Skip)
            } else {
                None
            }
        },
    }
}

} // verus!
