//! The closed failure taxonomy of the parser.

use vstd::prelude::*;
use crate::data_types::XDFElement;
use crate::events::Event;

verus! {

/// Why a parse failed.  Propagation is strictly fail-fast: any failure
/// aborts the whole parse; there is no partial result.
#[derive(Debug, Clone, PartialEq)]
pub enum Error {
    /// An attribute looked up as mandatory at its call site was absent.
    MissingItem,
    /// Text or an attribute was present but failed numeric or format
    /// decoding.
    BadValue,
    /// A tag-open name not recognized under the active dialect.
    UnknownType,
    /// A builder received a child of a kind not declared for its container,
    /// or a single-child container was followed by something other than a
    /// close.
    UnexpectedElement(XDFElement),
    /// The event stream violated minimal shape expectations; `None` means
    /// the stream ended where an event was needed.
    UnexpectedEvent(Option<Event>),
    /// Input remained where none was expected.
    LeftoverData,
    /// A failure of the underlying tokenizer, carried as its message.
    XmlError(String),
}

} // verus!
