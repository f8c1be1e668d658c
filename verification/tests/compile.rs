//! End-to-end compiles of small templates against JSON payloads, in both
//! accepted template syntaxes.

use metatron::Report;
use metatron::document::Document;
use metatron::document::Element;
use metatron::images::ImageMap;

fn kdl_template() -> String {
    let mut t = String::new();
    t.push_str("template {\n");
    t.push_str("    title {\n");
    t.push_str("        header \"Annual Report $P{year}\" level=1\n");
    t.push_str("    }\n");
    t.push_str("    column_header {\n");
    t.push_str("        column name=\"Name\" width=20\n");
    t.push_str("        column name=\"Amount\" width=10\n");
    t.push_str("    }\n");
    t.push_str("    row {\n");
    t.push_str("        value \"$F(name)\"\n");
    t.push_str("        value \"$F(amount)\"\n");
    t.push_str("    }\n");
    t.push_str("    column_footer {\n");
    t.push_str("        value \"Total $P{year}\"\n");
    t.push_str("    }\n");
    t.push_str("    page_header {\n");
    t.push_str("        text \"Acme Corp\" size=7\n");
    t.push_str("    }\n");
    t.push_str("    page_footer {\n");
    t.push_str("        text \"Page\" size=7\n");
    t.push_str("    }\n");
    t.push_str("    summary {\n");
    t.push_str("        paragraph {\n");
    t.push_str("            text \"Report for $P{year}\" size=10\n");
    t.push_str("        }\n");
    t.push_str("    }\n");
    t.push_str("}\n");
    t
}

fn yaml_template() -> String {
    let mut t = String::new();
    t.push_str("title:\n");
    t.push_str("  - header: \"Annual Report $P{year}\"\n");
    t.push_str("    level: 1\n");
    t.push_str("column_header:\n");
    t.push_str("  - name: \"Name\"\n");
    t.push_str("    width: 20\n");
    t.push_str("  - name: \"Amount\"\n");
    t.push_str("    width: 10\n");
    t.push_str("row:\n");
    t.push_str("  - value: \"$F(name)\"\n");
    t.push_str("  - value: \"$F(amount)\"\n");
    t.push_str("column_footer:\n");
    t.push_str("  - value: \"Total $P{year}\"\n");
    t.push_str("page_header:\n");
    t.push_str("  - text: \"Acme Corp\"\n");
    t.push_str("    size: 7\n");
    t.push_str("page_footer:\n");
    t.push_str("  - text: \"Page\"\n");
    t.push_str("    size: 7\n");
    t.push_str("summary:\n");
    t.push_str("  - paragraph:\n");
    t.push_str("      - text: \"Report for $P{year}\"\n");
    t.push_str("        size: 10\n");
    t
}

fn two_row_data() -> &'static str {
    "{\"params\":{\"year\":\"2024\"},\"rows\":[{\"name\":\"Alice\",\"amount\":10},{\"name\":\"Bob\",\"amount\":20}]}"
}

fn check_full_document(doc: &Document) {
    assert_eq!(doc.elements.len(), 3);
    match &doc.elements[0] {
        Element::Header { text, level } => {
            assert_eq!(text.as_str(), "Annual Report 2024");
            assert_eq!(*level, 1u8);
        },
        other => panic!("expected a header element, got {:?}", other),
    }
    match &doc.elements[1] {
        Element::Table { headers, rows } => {
            assert_eq!(headers.len(), 2);
            assert_eq!(headers[0].text.as_str(), "Name");
            assert_eq!(headers[0].width.as_str(), "20");
            assert_eq!(headers[1].text.as_str(), "Amount");
            assert_eq!(headers[1].width.as_str(), "10");
            assert_eq!(rows.len(), 3);
            assert_eq!(rows[0].cells, vec!["Alice".to_string(), "10".to_string()]);
            assert_eq!(rows[1].cells, vec!["Bob".to_string(), "20".to_string()]);
            assert_eq!(rows[2].cells, vec!["Total 2024".to_string()]);
        },
        other => panic!("expected a table element, got {:?}", other),
    }
    match &doc.elements[2] {
        Element::Paragraph { texts } => {
            assert_eq!(texts.len(), 1);
            assert_eq!(texts[0].text.as_str(), "Report for 2024");
            assert_eq!(texts[0].size, 10u8);
        },
        other => panic!("expected a paragraph element, got {:?}", other),
    }
    assert_eq!(doc.page_header.len(), 1);
    assert_eq!(doc.page_header[0].text.as_str(), "Acme Corp");
    assert_eq!(doc.page_header[0].size, 7u8);
    assert_eq!(doc.page_footer.len(), 1);
    assert_eq!(doc.page_footer[0].text.as_str(), "Page");
    assert_eq!(doc.page_footer[0].size, 7u8);
}

#[test]
fn kdl_end_to_end() {
    let images = ImageMap::new();
    let result = Report::to_document(kdl_template().as_str(), two_row_data(), &images);
    let doc = result.expect("compile should succeed");
    check_full_document(&doc);
}

#[test]
fn yaml_end_to_end() {
    let images = ImageMap::new();
    let result = Report::to_document(yaml_template().as_str(), two_row_data(), &images);
    let doc = result.expect("compile should succeed");
    check_full_document(&doc);
}

#[test]
fn footer_resolving_to_empty_becomes_single_space() {
    let template = kdl_template().replace("Total $P{year}", "$P{blank}");
    let data = "{\"params\":{\"year\":\"2024\",\"blank\":\"\"},\"rows\":[]}";
    let images = ImageMap::new();
    let doc = Report::to_document(template.as_str(), data, &images).expect("compile");
    match &doc.elements[1] {
        Element::Table { rows, .. } => {
            assert_eq!(rows.len(), 1);
            assert_eq!(rows[0].cells, vec![" ".to_string()]);
        },
        other => panic!("expected a table element, got {:?}", other),
    }
}

#[test]
fn row_missing_field_has_fewer_cells() {
    let data = "{\"params\":{\"year\":\"2024\"},\"rows\":[{\"name\":\"Alice\"},{\"name\":\"Bob\",\"amount\":20}]}";
    let images = ImageMap::new();
    let doc = Report::to_document(kdl_template().as_str(), data, &images).expect("compile");
    match &doc.elements[1] {
        Element::Table { rows, .. } => {
            assert_eq!(rows.len(), 3);
            assert_eq!(rows[0].cells, vec!["Alice".to_string()]);
            assert_eq!(rows[1].cells, vec!["Bob".to_string(), "20".to_string()]);
        },
        other => panic!("expected a table element, got {:?}", other),
    }
}

#[test]
fn non_scalar_field_contributes_no_cell() {
    let data = "{\"params\":{\"year\":\"2024\"},\"rows\":[{\"name\":[1,2],\"amount\":true}]}";
    let images = ImageMap::new();
    let doc = Report::to_document(kdl_template().as_str(), data, &images).expect("compile");
    match &doc.elements[1] {
        Element::Table { rows, .. } => {
            assert_eq!(rows.len(), 2);
            assert!(rows[0].cells.is_empty());
        },
        other => panic!("expected a table element, got {:?}", other),
    }
}

#[test]
fn rows_absent_means_header_and_footer_only() {
    let data = "{\"params\":{\"year\":\"2024\"}}";
    let images = ImageMap::new();
    let doc = Report::to_document(kdl_template().as_str(), data, &images).expect("compile");
    match &doc.elements[1] {
        Element::Table { rows, .. } => {
            assert_eq!(rows.len(), 1);
            assert_eq!(rows[0].cells, vec!["Total 2024".to_string()]);
        },
        other => panic!("expected a table element, got {:?}", other),
    }
}

#[test]
fn numbers_keep_their_canonical_text() {
    let data = "{\"params\":{\"year\":2024},\"rows\":[{\"name\":\"Pi\",\"amount\":2.5}]}";
    let images = ImageMap::new();
    let doc = Report::to_document(kdl_template().as_str(), data, &images).expect("compile");
    match &doc.elements[0] {
        Element::Header { text, .. } => assert_eq!(text.as_str(), "Annual Report 2024"),
        other => panic!("expected a header element, got {:?}", other),
    }
    match &doc.elements[1] {
        Element::Table { rows, .. } => {
            assert_eq!(rows[0].cells, vec!["Pi".to_string(), "2.5".to_string()]);
        },
        other => panic!("expected a table element, got {:?}", other),
    }
}

#[test]
fn page_band_text_is_not_substituted() {
    // page header and footer are static labels: a placeholder token in them
    // stays literal, unlike title, footer-cell and summary text
    let template = kdl_template().replace("text \"Acme Corp\" size=7", "text \"Acme $P{year}\" size=7");
    let images = ImageMap::new();
    let doc = Report::to_document(template.as_str(), two_row_data(), &images).expect("compile");
    assert_eq!(doc.page_header[0].text.as_str(), "Acme $P{year}");
}

#[test]
fn header_node_yields_one_element_per_text_entry() {
    let template = kdl_template().replace(
        "header \"Annual Report $P{year}\" level=1",
        "header \"Annual Report $P{year}\" \"Second line\" level=2",
    );
    let images = ImageMap::new();
    let doc = Report::to_document(template.as_str(), two_row_data(), &images).expect("compile");
    assert_eq!(doc.elements.len(), 4);
    match (&doc.elements[0], &doc.elements[1]) {
        (
            Element::Header { text: t0, level: l0 },
            Element::Header { text: t1, level: l1 },
        ) => {
            assert_eq!(t0.as_str(), "Annual Report 2024");
            assert_eq!(t1.as_str(), "Second line");
            assert_eq!(*l0, 2u8);
            assert_eq!(*l1, 2u8);
        },
        other => panic!("expected two header elements, got {:?}", other),
    }
}

#[test]
fn width_keeps_its_numeric_textual_form() {
    let template = kdl_template().replace("width=20", "width=20.5");
    let images = ImageMap::new();
    let doc = Report::to_document(template.as_str(), two_row_data(), &images).expect("compile");
    match &doc.elements[1] {
        Element::Table { headers, .. } => {
            assert_eq!(headers[0].width.as_str(), "20.5");
        },
        other => panic!("expected a table element, got {:?}", other),
    }
}

#[test]
fn image_bytes_come_from_the_image_map() {
    let template = kdl_template().replace(
        "        header \"Annual Report $P{year}\" level=1\n",
        "        header \"Annual Report $P{year}\" level=1\n        image src=\"logo\" width=5 height=4\n",
    );
    let images = ImageMap { entries: vec![("logo".to_string(), vec![1u8, 2u8, 3u8])] };
    let doc = Report::to_document(template.as_str(), two_row_data(), &images).expect("compile");
    assert_eq!(doc.elements.len(), 4);
    match &doc.elements[1] {
        Element::Image { bytes, width, height } => {
            assert_eq!(bytes, &vec![1u8, 2u8, 3u8]);
            assert_eq!(*width, 5i64);
            assert_eq!(*height, 4i64);
        },
        other => panic!("expected an image element, got {:?}", other),
    }
}
