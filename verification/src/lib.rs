//! Parser for tag-structured calibration-map definition documents.
//!
//! The library turns a stream of tag-open / text / tag-close events into a
//! strongly typed tree of elements: named constants, multi-axis tables,
//! per-axis display metadata and symbolic conversion formulas.  The event
//! stream itself is produced by an off-the-shelf tokenizer; everything that
//! interprets the events is verified.

pub mod assemble;
pub mod data_types;
pub mod decode;
pub mod dialect;
pub mod error;
pub mod events;
pub mod parser;
pub mod reader;
pub mod text;
