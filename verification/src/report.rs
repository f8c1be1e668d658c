//! The report compiler's entry point: template text plus JSON payload text
//! compile into the abstract document model, as one pure, synchronous,
//! stateless function. Rendering the document to output bytes is the work of
//! an external rendering collaborator and happens outside this library.

use vstd::prelude::*;
use crate::assemble::band_line;
use crate::assemble::spec_band_line;
use crate::assemble::spec_summary_paragraph;
use crate::assemble::spec_title_elements;
use crate::assemble::summary_paragraph;
use crate::assemble::title_elements;
use crate::data::Json;
use crate::data::JsonV;
use crate::data::lemma_jsons_deep_view;
use crate::data::parse_data;
use crate::data::payload_rows;
use crate::data::resolve_params;
use crate::data::spec_payload_params;
use crate::data::spec_payload_rows;
use crate::data::spec_resolved_params;
use crate::data::spec_rows_malformed;
use crate::data::json_parse_of;
use crate::document::Document;
use crate::document::DocumentV;
use crate::document::TextSpan;
use crate::error::ReportError;
use crate::error::ReportErrorV;
use crate::images::ImageMap;
use crate::node::NodeV;
use crate::node::spec_find_node;
use crate::params::assoc_map;
use crate::table::build_table;
use crate::table::spec_table;
use crate::template::parse_template;
use crate::template::section_nodes;
use crate::template::spec_section;
use crate::template::spec_template_sections;

verus! {

/// The seven validated sections of a template, as models.
pub struct SectionsV {
    pub title: Seq<NodeV>,
    pub column_header: Seq<NodeV>,
    pub row: Seq<NodeV>,
    pub column_footer: Seq<NodeV>,
    pub page_header: Seq<NodeV>,
    pub page_footer: Seq<NodeV>,
    pub summary: Seq<NodeV>,
}

/// Validates the presence and non-emptiness of every required section, in
/// the fixed order `title`, `column_header`, `row`, `column_footer`,
/// `page_header`, `page_footer`, `summary`; the first failure is the error.
pub open spec fn spec_split_sections(sections: Seq<NodeV>) -> Result<SectionsV, ReportErrorV> {
    match spec_section(sections, "title"@) {
        Err(e) => Err(e),
        Ok(title) => match spec_section(sections, "column_header"@) {
            Err(e) => Err(e),
            Ok(column_header) => match spec_section(sections, "row"@) {
                Err(e) => Err(e),
                Ok(row) => match spec_section(sections, "column_footer"@) {
                    Err(e) => Err(e),
                    Ok(column_footer) => match spec_section(sections, "page_header"@) {
                        Err(e) => Err(e),
                        Ok(page_header) => match spec_section(sections, "page_footer"@) {
                            Err(e) => Err(e),
                            Ok(page_footer) => match spec_section(sections, "summary"@) {
                                Err(e) => Err(e),
                                Ok(summary) => Ok(
                                    SectionsV {
                                        title,
                                        column_header,
                                        row,
                                        column_footer,
                                        page_header,
                                        page_footer,
                                        summary,
                                    },
                                ),
                            },
                        },
                    },
                },
            },
        },
    }
}

/// The document a validated template and a parsed payload compile to: the
/// parameters are resolved, the data rows are read, and the elements come in
/// the fixed order title elements, table, summary paragraph, with the page
/// header and footer lines attached out of band.
pub open spec fn spec_document(
    sv: SectionsV,
    data: JsonV,
    images: Seq<(Seq<char>, Seq<u8>)>,
) -> Result<DocumentV, ReportErrorV> {
    match spec_payload_params(data) {
        None => Err(ReportErrorV::MissingParams),
        Some(pobj) => {
            let p = assoc_map(spec_resolved_params(pobj));
            if spec_rows_malformed(data) {
                Err(ReportErrorV::RowsNotArray)
            } else {
                let records = match spec_payload_rows(data) {
                    Some(rs) => rs,
                    None => Seq::empty(),
                };
                match spec_title_elements(sv.title, p, images) {
                    Err(e) => Err(e),
                    Ok(title_els) => match spec_table(
                        sv.column_header,
                        sv.row,
                        sv.column_footer,
                        records,
                        p,
                    ) {
                        Err(e) => Err(e),
                        Ok(table) => match spec_band_line(sv.page_header) {
                            Err(e) => Err(e),
                            Ok(hline) => match spec_band_line(sv.page_footer) {
                                Err(e) => Err(e),
                                Ok(fline) => match spec_summary_paragraph(sv.summary, p) {
                                    Err(e) => Err(e),
                                    Ok(para) => Ok(
                                        DocumentV {
                                            elements: title_els + seq![table] + seq![para],
                                            page_header: seq![hline],
                                            page_footer: seq![fline],
                                        },
                                    ),
                                },
                            },
                        },
                    },
                }
            }
        },
    }
}

/// What a whole compile yields: `None` when the template text matches
/// neither syntax; otherwise the document or the first error. A data text
/// that is not valid JSON yields a data syntax error whose message is the
/// parser's own (modelled here with an empty message).
pub open spec fn spec_compile(
    t: Seq<char>,
    d: Seq<char>,
    images: Seq<(Seq<char>, Seq<u8>)>,
) -> Option<Result<DocumentV, ReportErrorV>> {
    match spec_template_sections(t) {
        None => None,
        Some(secres) => match secres {
            Err(e) => Some(Err(e)),
            Ok(sections) => match spec_split_sections(sections) {
                Err(e) => Some(Err(e)),
                Ok(sv) => match json_parse_of(d) {
                    None => Some(Err(ReportErrorV::DataSyntax(Seq::empty()))),
                    Some(data) => Some(spec_document(sv, data, images)),
                },
            },
        },
    }
}

/// An error agrees with its model: exactly equal, except that a data syntax
/// error carries the JSON parser's own diagnostic message, which the model
/// leaves open.
pub open spec fn matches_error(e: ReportErrorV, model: ReportErrorV) -> bool {
    match model {
        ReportErrorV::DataSyntax(_) => e is DataSyntax,
        _ => e == model,
    }
}

/// The names of the seven required sections, in their fixed order.
pub open spec fn required_section_names() -> Seq<Seq<char>> {
    seq![
        "title"@,
        "column_header"@,
        "row"@,
        "column_footer"@,
        "page_header"@,
        "page_footer"@,
        "summary"@,
    ]
}

/// `name` is one of the seven required sections.
pub open spec fn is_required_section(name: Seq<char>) -> bool {
    exists|i: int| 0 <= i < 7 && required_section_names()[i] == name
}

/// A template lacking any required section never validates: section
/// splitting fails, so no document — partial or otherwise — is ever built
/// from it.
pub proof fn lemma_missing_section_fails(sections: Seq<NodeV>, name: Seq<char>)
    requires
        is_required_section(name),
        spec_find_node(sections, name) is None,
    ensures
        spec_split_sections(sections) is Err,
{
    if spec_split_sections(sections) is Ok {
        assert(spec_find_node(sections, "title"@) is Some);
        assert(spec_find_node(sections, "column_header"@) is Some);
        assert(spec_find_node(sections, "row"@) is Some);
        assert(spec_find_node(sections, "column_footer"@) is Some);
        assert(spec_find_node(sections, "page_header"@) is Some);
        assert(spec_find_node(sections, "page_footer"@) is Some);
        assert(spec_find_node(sections, "summary"@) is Some);
        let i = choose|i: int| 0 <= i < 7 && required_section_names()[i] == name;
        assert(false);
    }
}

/// The error names the missing section: when the sections before position
/// `i` of the fixed order all validate and the section at `i` is absent, the
/// compile's structure error is `MissingSection` of exactly that name.
pub proof fn lemma_missing_section_named(sections: Seq<NodeV>, i: int)
    requires
        0 <= i < 7,
        forall|k: int| 0 <= k < i ==> spec_section(
            sections,
            #[trigger] required_section_names()[k],
        ) is Ok,
        spec_find_node(sections, required_section_names()[i]) is None,
    ensures
        spec_split_sections(sections) == Err::<SectionsV, ReportErrorV>(
            ReportErrorV::MissingSection(required_section_names()[i]),
        ),
{
    if i == 0 {
    } else if i == 1 {
        assert(spec_section(sections, required_section_names()[0]) is Ok);
    } else if i == 2 {
        assert(spec_section(sections, required_section_names()[0]) is Ok);
        assert(spec_section(sections, required_section_names()[1]) is Ok);
    } else if i == 3 {
        assert(spec_section(sections, required_section_names()[0]) is Ok);
        assert(spec_section(sections, required_section_names()[1]) is Ok);
        assert(spec_section(sections, required_section_names()[2]) is Ok);
    } else if i == 4 {
        assert(spec_section(sections, required_section_names()[0]) is Ok);
        assert(spec_section(sections, required_section_names()[1]) is Ok);
        assert(spec_section(sections, required_section_names()[2]) is Ok);
        assert(spec_section(sections, required_section_names()[3]) is Ok);
    } else if i == 5 {
        assert(spec_section(sections, required_section_names()[0]) is Ok);
        assert(spec_section(sections, required_section_names()[1]) is Ok);
        assert(spec_section(sections, required_section_names()[2]) is Ok);
        assert(spec_section(sections, required_section_names()[3]) is Ok);
        assert(spec_section(sections, required_section_names()[4]) is Ok);
    } else {
        assert(spec_section(sections, required_section_names()[0]) is Ok);
        assert(spec_section(sections, required_section_names()[1]) is Ok);
        assert(spec_section(sections, required_section_names()[2]) is Ok);
        assert(spec_section(sections, required_section_names()[3]) is Ok);
        assert(spec_section(sections, required_section_names()[4]) is Ok);
        assert(spec_section(sections, required_section_names()[5]) is Ok);
    }
}

/// Compiling a template that parses but lacks a required section fails with
/// an error, for every data payload and image map: no partial document is
/// ever returned.
pub proof fn lemma_missing_section_compile_fails(
    t: Seq<char>,
    d: Seq<char>,
    images: Seq<(Seq<char>, Seq<u8>)>,
    name: Seq<char>,
)
    requires
        spec_template_sections(t) matches Some(secres) && secres matches Ok(sections)
            && is_required_section(name) && spec_find_node(sections, name) is None,
    ensures
        spec_compile(t, d, images) matches Some(res) && res is Err,
{
    let sections = spec_template_sections(t)->Some_0->Ok_0;
    lemma_missing_section_fails(sections, name);
}

/// The report compiler. It holds no state: every compile is independent.
pub struct Report;

impl Report {
    /// Compiles template text and JSON payload text into the abstract
    /// document model. The whole compile is a pure function of its inputs;
    /// it fails fast with the first error encountered and never returns a
    /// partial document.
    pub fn to_document(template: &str, data: &str, images: &ImageMap) -> (r: Result<
        Document,
        ReportError,
    >)
        ensures
            match spec_compile(template@, data@, images.entries.deep_view()) {
                Some(res) => match r {
                    Ok(doc) => res == Ok::<DocumentV, ReportErrorV>(doc@),
                    Err(e) => res matches Err(me) && matches_error(e@, me),
                },
                None => r matches Err(e) && e@ is TemplateSyntax,
            },
    {
        let sections = match parse_template(template) {
            Ok(s) => s,
            Err(e) => {
                return Err(e);
            },
        };
        let title = match section_nodes(&sections, "title") {
            Ok(v) => v,
            Err(e) => {
                return Err(e);
            },
        };
        let column_header = match section_nodes(&sections, "column_header") {
            Ok(v) => v,
            Err(e) => {
                return Err(e);
            },
        };
        let row = match section_nodes(&sections, "row") {
            Ok(v) => v,
            Err(e) => {
                return Err(e);
            },
        };
        let column_footer = match section_nodes(&sections, "column_footer") {
            Ok(v) => v,
            Err(e) => {
                return Err(e);
            },
        };
        let page_header = match section_nodes(&sections, "page_header") {
            Ok(v) => v,
            Err(e) => {
                return Err(e);
            },
        };
        let page_footer = match section_nodes(&sections, "page_footer") {
            Ok(v) => v,
            Err(e) => {
                return Err(e);
            },
        };
        let summary = match section_nodes(&sections, "summary") {
            Ok(v) => v,
            Err(e) => {
                return Err(e);
            },
        };
        let payload = match parse_data(data) {
            Ok(d) => d,
            Err(e) => {
                return Err(e);
            },
        };
        let params = match resolve_params(&payload) {
            Ok(p) => p,
            Err(e) => {
                return Err(e);
            },
        };
        let rows_opt = match payload_rows(&payload) {
            Ok(o) => o,
            Err(e) => {
                return Err(e);
            },
        };
        let empty_records: Vec<Json> = Vec::new();
        let records = match rows_opt {
            Some(r) => r,
            None => &empty_records,
        };
        proof {
            lemma_jsons_deep_view(*records);
            assert(empty_records.deep_view() =~= Seq::<JsonV>::empty());
        }
        let mut elements = match title_elements(title, &params, images) {
            Ok(els) => els,
            Err(e) => {
                return Err(e);
            },
        };
        let ghost title_elsv = elements.deep_view();
        let table = match build_table(column_header, row, column_footer, records, &params) {
            Ok(t) => t,
            Err(e) => {
                return Err(e);
            },
        };
        let hline = match band_line(page_header) {
            Ok(l) => l,
            Err(e) => {
                return Err(e);
            },
        };
        let fline = match band_line(page_footer) {
            Ok(l) => l,
            Err(e) => {
                return Err(e);
            },
        };
        let para = match summary_paragraph(summary, &params) {
            Ok(p) => p,
            Err(e) => {
                return Err(e);
            },
        };
        let ghost tablev = table@;
        let ghost parav = para@;
        elements.push(table);
        elements.push(para);
        let mut page_header_lines: Vec<TextSpan> = Vec::new();
        page_header_lines.push(hline);
        let mut page_footer_lines: Vec<TextSpan> = Vec::new();
        page_footer_lines.push(fline);
        let doc = Document {
            elements,
            page_header: page_header_lines,
            page_footer: page_footer_lines,
        };
        proof {
            assert(doc@.elements =~= title_elsv + seq![tablev] + seq![parav]);
            assert(doc@.page_header =~= seq![hline@]);
            assert(doc@.page_footer =~= seq![fline@]);
        }
        Ok(doc)
    }
}

} // verus!
