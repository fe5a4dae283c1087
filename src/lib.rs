//! Windows INI text and a typed value model, in both directions.
//!
//! Text is cut into lines and each line into an [`Item`]; a one-item
//! lookahead cursor ([`Deserializer`]) skips comments and blank lines and
//! feeds the decoding engine, which reads the items in the shape that a
//! [`Shape`] asks for. The encoding engine walks a [`Value`] and emits items,
//! which a [`Writer`] renders as text.
use vstd::prelude::*;

pub mod de;
pub mod error;
pub mod laws;
pub mod numeric;
pub mod parse;
pub mod ser;
pub mod value;
pub mod write;

pub use de::{from_items, from_lines, from_str, Deserializer};
pub use parse::{Item, Parser};
pub use ser::{to_items, to_string, MapSerializer, Serializer, UnsupportedType};
pub use value::{IntKind, Shape, Value, VariantShape};
pub use write::{LineEnding, Writer};
