//! Declarative extraction of structured data from HTML documents.
//!
//! A small path language describes where values sit in a document. The
//! compiler in [`parser`] turns its text into a [`path::PathStep`] sequence, the
//! evaluator in [`path`] walks a parsed [`document::Document`] along such a
//! path, and [`populator`] merges standalone fields and paths into one record
//! per document, or drives a crawl over linked documents.
pub mod document;
pub mod field;
pub mod parser;
pub mod path;
pub mod populator;
pub mod table;
pub mod text;
