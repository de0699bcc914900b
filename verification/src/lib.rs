//! Verified core of the `ezsxf` SXF reader: Part 21 / SFC syntax, typed SFC
//! features, and the resolved SFC drawing model.

pub mod attribute;
pub mod checks;
pub mod checklist;
pub mod codes;
pub mod containers;
pub mod decode;
pub mod document;
pub mod encoding;
pub mod features;
pub mod grammar;
pub mod header;
pub mod lexer;
pub mod model;
pub mod number;
pub mod parser;
pub mod reader;
pub mod resolution;
pub mod rules;
pub mod sfc_model;
pub mod tables;
pub mod text;
pub mod validate;
pub mod values;

pub use reader::{parse_p21_text, parse_sfc_text};
