//! A report compiler: a declarative template plus a JSON data payload are
//! compiled into an abstract, renderer-agnostic document model (headers,
//! a table, paragraphs, and page-level header/footer text).
//!
//! Producing output bytes (PDF, HTML, plain text) from the document model is
//! delegated to an external rendering collaborator and is out of scope here,
//! as are HTTP transport and process setup.

pub mod assemble;
pub mod binder;
pub mod data;
pub mod document;
pub mod error;
pub mod images;
pub mod node;
pub mod params;
pub mod report;
pub mod subst;
pub mod syntax;
pub mod table;
pub mod template;

pub use error::ReportError;
pub use report::Report;
