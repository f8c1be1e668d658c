//! One input per error kind: the compile fails fast with the first error and
//! never returns a partial document.

use metatron::Report;
use metatron::ReportError;
use metatron::images::ImageMap;

fn kdl_template_without(section: &str) -> String {
    let sections = [
        ("title", "title { header \"T\" level=1 }\n"),
        ("column_header", "column_header { column name=\"N\" width=20 }\n"),
        ("row", "row { value \"$F(n)\" }\n"),
        ("column_footer", "column_footer { value \"Sum\" }\n"),
        ("page_header", "page_header { text \"H\" size=7 }\n"),
        ("page_footer", "page_footer { text \"F\" size=7 }\n"),
        ("summary", "summary { paragraph { text \"S\" size=10 } }\n"),
    ];
    let mut t = String::from("template {\n");
    for (name, body) in sections.iter() {
        if *name != section {
            t.push_str(body);
        }
    }
    t.push_str("}\n");
    t
}

fn good_data() -> &'static str {
    "{\"params\":{},\"rows\":[]}"
}

#[test]
fn missing_section_is_named() {
    let images = ImageMap::new();
    for section in [
        "title",
        "column_header",
        "row",
        "column_footer",
        "page_header",
        "page_footer",
        "summary",
    ] {
        let template = kdl_template_without(section);
        let result = Report::to_document(template.as_str(), good_data(), &images);
        assert_eq!(result.unwrap_err(), ReportError::MissingSection(section.to_string()));
    }
}

#[test]
fn missing_template_root_is_reported() {
    let images = ImageMap::new();
    let result = Report::to_document("other { x }", good_data(), &images);
    assert_eq!(result.unwrap_err(), ReportError::MissingSection("template".to_string()));
}

#[test]
fn empty_section_is_named() {
    // a `row` section written with no nodes at all
    let mut t = String::from("template {\n");
    t.push_str("title { header \"T\" level=1 }\n");
    t.push_str("column_header { column name=\"N\" width=20 }\n");
    t.push_str("row {\n}\n");
    t.push_str("column_footer { value \"Sum\" }\n");
    t.push_str("page_header { text \"H\" size=7 }\n");
    t.push_str("page_footer { text \"F\" size=7 }\n");
    t.push_str("summary { paragraph { text \"S\" size=10 } }\n");
    t.push_str("}\n");
    let images = ImageMap::new();
    let result = Report::to_document(t.as_str(), good_data(), &images);
    assert_eq!(result.unwrap_err(), ReportError::EmptySection("row".to_string()));
}

#[test]
fn template_matching_neither_syntax_is_a_syntax_error() {
    let images = ImageMap::new();
    let result = Report::to_document("][ not a template", good_data(), &images);
    match result.unwrap_err() {
        ReportError::TemplateSyntax(_) => {},
        other => panic!("expected a template syntax error, got {:?}", other),
    }
}

#[test]
fn invalid_json_data_is_a_data_syntax_error() {
    let images = ImageMap::new();
    let template = kdl_template_without("none");
    let result = Report::to_document(template.as_str(), "{ not json", &images);
    match result.unwrap_err() {
        ReportError::DataSyntax(_) => {},
        other => panic!("expected a data syntax error, got {:?}", other),
    }
}

#[test]
fn payload_without_params_is_rejected() {
    let images = ImageMap::new();
    let template = kdl_template_without("none");
    for data in ["{}", "[1,2]", "{\"params\": 3}", "\"x\""] {
        let result = Report::to_document(template.as_str(), data, &images);
        assert_eq!(result.unwrap_err(), ReportError::MissingParams);
    }
}

#[test]
fn rows_that_are_not_an_array_are_rejected() {
    let images = ImageMap::new();
    let template = kdl_template_without("none");
    let result = Report::to_document(template.as_str(), "{\"params\":{},\"rows\":3}", &images);
    assert_eq!(result.unwrap_err(), ReportError::RowsNotArray);
}

#[test]
fn column_without_width_is_rejected() {
    let images = ImageMap::new();
    let template = kdl_template_without("column_header").replace(
        "template {\n",
        "template {\ncolumn_header { column name=\"N\" }\n",
    );
    let result = Report::to_document(template.as_str(), good_data(), &images);
    assert_eq!(result.unwrap_err(), ReportError::MissingAttribute("width".to_string()));
}

#[test]
fn column_with_textual_width_is_a_type_mismatch() {
    let images = ImageMap::new();
    let template = kdl_template_without("column_header").replace(
        "template {\n",
        "template {\ncolumn_header { column name=\"N\" width=\"wide\" }\n",
    );
    let result = Report::to_document(template.as_str(), good_data(), &images);
    assert_eq!(
        result.unwrap_err(),
        ReportError::TypeMismatch("width".to_string(), "number".to_string()),
    );
}

#[test]
fn header_without_level_is_rejected() {
    let images = ImageMap::new();
    let template = kdl_template_without("title").replace(
        "template {\n",
        "template {\ntitle { header \"T\" }\n",
    );
    let result = Report::to_document(template.as_str(), good_data(), &images);
    assert_eq!(result.unwrap_err(), ReportError::MissingAttribute("level".to_string()));
}

#[test]
fn missing_image_bytes_are_an_io_error() {
    let images = ImageMap::new();
    let template = kdl_template_without("title").replace(
        "template {\n",
        "template {\ntitle { image src=\"logo\" width=5 height=4 }\n",
    );
    let result = Report::to_document(template.as_str(), good_data(), &images);
    assert_eq!(result.unwrap_err(), ReportError::Io("logo".to_string()));
}

#[test]
fn yaml_template_missing_a_section_is_rejected() {
    let mut t = String::new();
    t.push_str("title:\n");
    t.push_str("  - header: \"T\"\n");
    t.push_str("    level: 1\n");
    t.push_str("column_header:\n");
    t.push_str("  - name: \"N\"\n");
    t.push_str("    width: 20\n");
    t.push_str("row:\n");
    t.push_str("  - value: \"$F(n)\"\n");
    t.push_str("column_footer:\n");
    t.push_str("  - value: \"Sum\"\n");
    t.push_str("page_header:\n");
    t.push_str("  - text: \"H\"\n");
    t.push_str("    size: 7\n");
    t.push_str("page_footer:\n");
    t.push_str("  - text: \"F\"\n");
    t.push_str("    size: 7\n");
    // no summary section
    let images = ImageMap::new();
    let result = Report::to_document(t.as_str(), good_data(), &images);
    assert_eq!(result.unwrap_err(), ReportError::MissingSection("summary".to_string()));
}

#[test]
fn header_level_out_of_display_range_is_a_type_mismatch() {
    let images = ImageMap::new();
    let template = kdl_template_without("title").replace(
        "template {\n",
        "template {\ntitle { header \"T\" level=300 }\n",
    );
    let result = Report::to_document(template.as_str(), good_data(), &images);
    assert_eq!(
        result.unwrap_err(),
        ReportError::TypeMismatch("level".to_string(), "integer".to_string()),
    );
}

#[test]
fn row_binding_without_value_is_rejected() {
    let images = ImageMap::new();
    let template = kdl_template_without("row").replace(
        "template {\n",
        "template {\nrow { value }\n",
    );
    let data = "{\"params\":{},\"rows\":[{\"n\":1}]}";
    let result = Report::to_document(template.as_str(), data, &images);
    assert_eq!(result.unwrap_err(), ReportError::MissingAttribute("value".to_string()));
}
