//! The event stream the parser consumes, and the attribute accessor.
//!
//! The tokenizer hands the parser a flat sequence of events: document
//! boundaries, tag-opens with their ordered attribute lists, text runs
//! (already whitespace-normalized and coalesced), and tag-closes.  Anything
//! else a tokenizer may produce is carried as [`Event::Other`] and treated
//! as a protocol violation when it reaches the dispatcher.

use vstd::prelude::*;

verus! {

/// One attribute of a tag-open event.
#[derive(Debug, Clone, PartialEq)]
pub struct Attr {
    pub name: String,
    pub value: String,
}

/// One tokenizer event.
#[derive(Debug, Clone, PartialEq)]
pub enum Event {
    /// Start-of-document boundary; skipped by the dispatcher.
    DocStart,
    /// End-of-document boundary.
    DocEnd,
    /// An opening tag with its ordered attribute list.
    TagOpen { name: String, attrs: Vec<Attr> },
    /// A run of character data.
    Text { content: String },
    /// A closing tag.
    TagClose { name: String },
    /// Markup this parser does not model (a processing instruction, say).
    Other,
}

/// Two attributes carrying the same name and value text.
pub open spec fn attr_like(a: Attr, b: Attr) -> bool {
    a.name@ == b.name@ && a.value@ == b.value@
}

/// Two attribute lists equal element for element, at the level of their
/// text.
pub open spec fn attrs_like(a: Seq<Attr>, b: Seq<Attr>) -> bool {
    &&& a.len() == b.len()
    &&& forall|j: int| 0 <= j < a.len() ==> attr_like(#[trigger] a[j], b[j])
}

/// Two events of the same shape carrying the same text: what a faithful
/// copy of an event preserves.
pub open spec fn event_like(a: Event, b: Event) -> bool {
    match (a, b) {
        (Event::DocStart, Event::DocStart) => true,
        (Event::DocEnd, Event::DocEnd) => true,
        (Event::Other, Event::Other) => true,
        (Event::Text { content: c1 }, Event::Text { content: c2 }) => c1@ == c2@,
        (Event::TagClose { name: n1 }, Event::TagClose { name: n2 }) => n1@ == n2@,
        (
            Event::TagOpen { name: n1, attrs: a1 },
            Event::TagOpen { name: n2, attrs: a2 },
        ) => n1@ == n2@ && attrs_like(a1@, a2@),
        _ => false,
    }
}

/// Copy an attribute list, preserving every name and value text.
pub fn clone_attrs(attrs: &Vec<Attr>) -> (r: Vec<Attr>)
    ensures
        attrs_like(r@, attrs@),
{
    let n = attrs.len();
    let mut out: Vec<Attr> = Vec::new();
    let mut i: usize = 0;
    while i < n
        invariant
            0 <= i as int <= n,
            n == attrs@.len(),
            out@.len() == i as int,
            forall|j: int| 0 <= j < i as int ==> attr_like(#[trigger] out@[j], attrs@[j]),
        decreases n - i,
    {
        out.push(Attr { name: attrs[i].name.clone(), value: attrs[i].value.clone() });
        i = i + 1;
    }
    out
}

/// First attribute named `name` at or after index `i`.
pub open spec fn attr_from(attrs: Seq<Attr>, i: int, name: Seq<char>) -> Option<Attr>
    decreases attrs.len() - i,
    when 0 <= i <= attrs.len()
{
    if i < attrs.len() {
        if attrs[i].name@ == name {
            Some(attrs[i])
        } else {
            attr_from(attrs, i + 1, name)
        }
    } else {
        None
    }
}

/// First attribute with the given name: duplicate names resolve to the
/// first occurrence.
pub open spec fn attr_lookup(attrs: Seq<Attr>, name: Seq<char>) -> Option<Attr> {
    attr_from(attrs, 0, name)
}

/// Value text of the first attribute with the given name.
pub open spec fn attr_val(attrs: Seq<Attr>, name: Seq<char>) -> Option<Seq<char>> {
    match attr_lookup(attrs, name) {
        Some(a) => Some(a.value@),
        None => None,
    }
}

/// Look up a named attribute: a linear search for the first exact name
/// match, `None` when the tag does not carry the attribute.
pub fn get_attr(attrs: &Vec<Attr>, name: &str) -> (r: Option<String>)
    ensures
        (match attr_lookup(attrs@, name@) {
            Some(a) => r matches Some(v) && v@ == a.value@,
            None => r is None,
        }),
{
    let n = attrs.len();
    let mut i: usize = 0;
    while i < n
        invariant
            0 <= i as int <= n,
            n == attrs@.len(),
            attr_lookup(attrs@, name@) == attr_from(attrs@, i as int, name@),
        decreases n - i,
    {
        if crate::text::str_eq(attrs[i].name.as_str(), name) {
            return Some(attrs[i].value.clone());
        }
        i = i + 1;
    }
    None
}

} // verus!
