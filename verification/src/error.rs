//! Error taxonomy for the report compiler.
//!
//! Every stage of the pipeline fails fast and surfaces the first error it
//! encounters; no partial document is ever produced.

use vstd::prelude::*;

verus! {

/// The error kinds a compile can fail with.
///
/// - `TemplateSyntax`: the template text matches neither accepted syntax.
/// - `MissingSection` / `EmptySection`: a required top-level section is
///   absent, or present with no nodes (structure errors).
/// - `MissingAttribute`: a required attribute or positional value is absent
///   from a node.
/// - `TypeMismatch(attribute, expected)`: an attribute is present but cannot
///   be read as the expected kind.
/// - `DataSyntax`: the data payload is not valid JSON text.
/// - `MissingParams`: the payload has no `params` object.
/// - `RowsNotArray`: the payload has a `rows` entry that is not an array.
/// - `Io`: an image referenced by the template is not available.
#[derive(Debug, Clone, PartialEq, Eq)]
pub enum ReportError {
    TemplateSyntax(String),
    MissingSection(String),
    EmptySection(String),
    MissingAttribute(String),
    TypeMismatch(String, String),
    DataSyntax(String),
    MissingParams,
    RowsNotArray,
    Io(String),
}

/// The mathematical model of a `ReportError`.
pub enum ReportErrorV {
    TemplateSyntax(Seq<char>),
    MissingSection(Seq<char>),
    EmptySection(Seq<char>),
    MissingAttribute(Seq<char>),
    TypeMismatch(Seq<char>, Seq<char>),
    DataSyntax(Seq<char>),
    MissingParams,
    RowsNotArray,
    Io(Seq<char>),
}

impl View for ReportError {
    type V = ReportErrorV;

    open spec fn view(&self) -> ReportErrorV {
        match self {
            ReportError::TemplateSyntax(m) => ReportErrorV::TemplateSyntax(m@),
            ReportError::MissingSection(s) => ReportErrorV::MissingSection(s@),
            ReportError::EmptySection(s) => ReportErrorV::EmptySection(s@),
            ReportError::MissingAttribute(a) => ReportErrorV::MissingAttribute(a@),
            ReportError::TypeMismatch(a, k) => ReportErrorV::TypeMismatch(a@, k@),
            ReportError::DataSyntax(m) => ReportErrorV::DataSyntax(m@),
            ReportError::MissingParams => ReportErrorV::MissingParams,
            ReportError::RowsNotArray => ReportErrorV::RowsNotArray,
            ReportError::Io(m) => ReportErrorV::Io(m@),
        }
    }
}

impl ReportError {
    /// A short label naming the error kind, for diagnostics.
    pub fn kind_label(&self) -> (r: &'static str)
        ensures
            r@ == self.spec_kind_label(),
    {
        match self {
            ReportError::TemplateSyntax(_) => "template syntax error",
            ReportError::MissingSection(_) => "missing section",
            ReportError::EmptySection(_) => "empty section",
            ReportError::MissingAttribute(_) => "missing attribute",
            ReportError::TypeMismatch(_, _) => "type mismatch",
            ReportError::DataSyntax(_) => "data syntax error",
            ReportError::MissingParams => "missing params",
            ReportError::RowsNotArray => "rows is not an array",
            ReportError::Io(_) => "io error",
        }
    }

    /// What `kind_label` returns for each variant.
    pub open spec fn spec_kind_label(&self) -> Seq<char> {
        match self {
            ReportError::TemplateSyntax(_) => "template syntax error"@,
            ReportError::MissingSection(_) => "missing section"@,
            ReportError::EmptySection(_) => "empty section"@,
            ReportError::MissingAttribute(_) => "missing attribute"@,
            ReportError::TypeMismatch(_, _) => "type mismatch"@,
            ReportError::DataSyntax(_) => "data syntax error"@,
            ReportError::MissingParams => "missing params"@,
            ReportError::RowsNotArray => "rows is not an array"@,
            ReportError::Io(_) => "io error"@,
        }
    }
}

} // verus!
