//! Building blocks for writing spreadsheet documents in the Office Open XML
//! package format: an in-memory model of cells, formats and sheet metadata,
//! and the writers that turn that model into the XML parts of a package.
//!
//! Every executable function carries a contract over a mathematical model
//! of its data (sequences of characters for text, maps for sparse tables),
//! and Verus proves that the function meets it.

pub mod conditional_format;
pub mod core_properties;
pub mod custom;
pub mod drawing;
pub mod error;
pub mod format;
pub mod image;
pub mod number;
pub mod packager;
pub mod properties;
pub mod registry;
pub mod serializer;
pub mod shared_strings;
pub mod sorted_map;
pub mod string_map;
pub mod styles;
pub mod table;
pub mod utility;
pub mod workbook;
pub mod worksheet;
pub mod worksheet_xml;
pub mod xmlwriter;
