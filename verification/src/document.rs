//! The abstract, renderer-agnostic document model a compile produces: an
//! ordered sequence of elements plus page-level header and footer text that
//! stands outside the element sequence.

use vstd::prelude::*;

verus! {

/// The fixed display size used for every table cell and table header text.
/// Cell text size is not configurable in this version of the template format.
pub const CELL_TEXT_SIZE: u8 = 8;

/// A run of text with a display size.
#[derive(Debug, Clone, PartialEq, Eq)]
pub struct TextSpan {
    pub text: String,
    pub size: u8,
}

/// The model of a `TextSpan`.
pub struct TextSpanV {
    pub text: Seq<char>,
    pub size: u8,
}

impl View for TextSpan {
    type V = TextSpanV;

    open spec fn view(&self) -> TextSpanV {
        TextSpanV { text: self.text@, size: self.size }
    }
}

impl DeepView for TextSpan {
    type V = TextSpanV;

    open spec fn deep_view(&self) -> TextSpanV {
        self@
    }
}

/// One table column header: its caption and the column width, kept in the
/// numeric textual form the template gave.
#[derive(Debug, Clone, PartialEq, Eq)]
pub struct TableHeader {
    pub text: String,
    pub width: String,
}

/// The model of a `TableHeader`.
pub struct TableHeaderV {
    pub text: Seq<char>,
    pub width: Seq<char>,
}

impl View for TableHeader {
    type V = TableHeaderV;

    open spec fn view(&self) -> TableHeaderV {
        TableHeaderV { text: self.text@, width: self.width@ }
    }
}

impl DeepView for TableHeader {
    type V = TableHeaderV;

    open spec fn deep_view(&self) -> TableHeaderV {
        self@
    }
}

/// One table row: the cell texts, in column order. Every cell is displayed
/// at `CELL_TEXT_SIZE`.
#[derive(Debug, Clone, PartialEq, Eq)]
pub struct TableRow {
    pub cells: Vec<String>,
}

impl View for TableRow {
    type V = Seq<Seq<char>>;

    open spec fn view(&self) -> Seq<Seq<char>> {
        self.cells.deep_view()
    }
}

impl DeepView for TableRow {
    type V = Seq<Seq<char>>;

    open spec fn deep_view(&self) -> Seq<Seq<char>> {
        self@
    }
}

/// One element of the document body.
#[derive(Debug, Clone, PartialEq, Eq)]
pub enum Element {
    Header { text: String, level: u8 },
    Table { headers: Vec<TableHeader>, rows: Vec<TableRow> },
    Paragraph { texts: Vec<TextSpan> },
    Image { bytes: Vec<u8>, width: i64, height: i64 },
}

/// The model of an `Element`.
pub enum ElementV {
    Header { text: Seq<char>, level: u8 },
    Table { headers: Seq<TableHeaderV>, rows: Seq<Seq<Seq<char>>> },
    Paragraph { texts: Seq<TextSpanV> },
    Image { bytes: Seq<u8>, width: i64, height: i64 },
}

impl View for Element {
    type V = ElementV;

    open spec fn view(&self) -> ElementV {
        match self {
            Element::Header { text, level } => ElementV::Header { text: text@, level: *level },
            Element::Table { headers, rows } => ElementV::Table {
                headers: headers.deep_view(),
                rows: rows.deep_view(),
            },
            Element::Paragraph { texts } => ElementV::Paragraph { texts: texts.deep_view() },
            Element::Image { bytes, width, height } => ElementV::Image {
                bytes: bytes@,
                width: *width,
                height: *height,
            },
        }
    }
}

impl DeepView for Element {
    type V = ElementV;

    open spec fn deep_view(&self) -> ElementV {
        self@
    }
}

/// The compiled document: the ordered element sequence, and the out-of-band
/// page header and page footer text lines.
#[derive(Debug, Clone, PartialEq, Eq)]
pub struct Document {
    pub elements: Vec<Element>,
    pub page_header: Vec<TextSpan>,
    pub page_footer: Vec<TextSpan>,
}

/// The model of a `Document`.
pub struct DocumentV {
    pub elements: Seq<ElementV>,
    pub page_header: Seq<TextSpanV>,
    pub page_footer: Seq<TextSpanV>,
}

impl View for Document {
    type V = DocumentV;

    open spec fn view(&self) -> DocumentV {
        DocumentV {
            elements: self.elements.deep_view(),
            page_header: self.page_header.deep_view(),
            page_footer: self.page_footer.deep_view(),
        }
    }
}

} // verus!
