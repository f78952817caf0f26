//! A compiler for a terse interface-definition language.
//!
//! Source text is parsed into a syntax tree ([`data`]) by a recursive-descent
//! parser over the text's characters ([`lex`], [`literals`], [`types`],
//! [`constructs`]); the objects of a compilation unit are then converted into
//! an API-description document model ([`openapi`]) by [`convert`] and
//! [`generate`], which resolve references and the inheritance of info blocks.
//! [`laws`] states and proves properties that hold of every input.

pub mod data;
pub mod lex;
pub mod literals;
pub mod types;
pub mod constructs;
pub mod openapi;
pub mod table;
pub mod convert;
pub mod generate;
pub mod laws;

pub use constructs::{parse, parse_chars, ParseError};
pub use generate::{extends_info, generate, resolve_info, ConvertError, InfoConfig};
pub use lex::{is_identifier_body, is_identifier_prefix};
