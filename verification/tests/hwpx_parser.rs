use std::collections::BTreeMap;
use std::io::Write;

use core_rs::generators::hwpx::compat::CompatSectionTemplates;
use core_rs::generators::hwpx::generator::ProfileHeaderTemplates;
use core_rs::models::block::{Block, ListBlock, ListItem, TableAlignment, TableBlock, TableRow};
use core_rs::models::document::Document;
use core_rs::models::inline::Inline;
use core_rs::parser::hwpx::metadata::{parse_metadata, RawHwpxMetadata};
use core_rs::parser::hwpx::registry::{parse_registry, CharStyle, ListInfo, ListKind};
use core_rs::parser::hwpx::parse_hwpx;
use core_rs::debug_parse_hwpx;
use core_rs::parser::markdown::MarkdownParser;
use core_rs::utils::xml_reader::{normalized_node_text, read_xml, required_u32_attr};
use core_rs::{generate_hwpx, CoreRsError, HwpxOptions, HwpxPackageParts};
use zip::write::SimpleFileOptions;
use zip::CompressionMethod;

const CONTENT_HPF: &str = "<opf:package xmlns:opf=\"http://www.idpf.org/2007/opf/\"><opf:metadata><opf:title>Doc</opf:title><opf:language>ko</opf:language><opf:meta name=\"creator\" content=\"text\">me</opf:meta><opf:meta name=\"lastsaveby\">  </opf:meta></opf:metadata></opf:package>";

const HEADER_XML: &str = "<hh:head xmlns:hh=\"http://www.hancom.co.kr/hwpml/2011/head\" xmlns:hc=\"http://www.hancom.co.kr/hwpml/2011/core\"><hh:refList><hh:charProperties itemCnt=\"7\"><hh:charPr id=\"0\"/><hh:charPr id=\"1\"><hh:bold/></hh:charPr><hh:charPr id=\"2\"><hh:italic/></hh:charPr><hh:charPr id=\"5\"/><hh:charPr id=\"6\"/></hh:charProperties><hh:bullets><hh:bullet id=\"1\"/></hh:bullets><hh:paraProperties><hh:paraPr id=\"0\"><hh:heading type=\"NONE\" idRef=\"0\" level=\"0\"/></hh:paraPr><hh:paraPr id=\"1\"><hh:heading type=\"OUTLINE\" idRef=\"0\" level=\"0\"/></hh:paraPr><hh:paraPr id=\"19\"><hh:heading type=\"BULLET\" idRef=\"1\" level=\"0\"/><hh:margin><hc:left value=\"1100\"/></hh:margin></hh:paraPr><hh:paraPr id=\"21\"><hh:heading type=\"NONE\" idRef=\"0\" level=\"0\"/><hh:margin><hc:left value=\"1100\"/></hh:margin><hh:border borderFillIDRef=\"4\"/></hh:paraPr></hh:paraProperties></hh:refList><hh:styles><hh:style id=\"0\" type=\"PARA\" paraPrIDRef=\"0\"/><hh:style id=\"2\" type=\"PARA\" paraPrIDRef=\"1\"/></hh:styles></hh:head>";

const SECTION_OPEN: &str = "<hs:sec xmlns:hs=\"http://www.hancom.co.kr/hwpml/2011/section\" xmlns:hp=\"http://www.hancom.co.kr/hwpml/2011/paragraph\">";

fn paragraph(para_pr: u32, body: &str) -> String {
    format!("<hp:p id=\"0\" paraPrIDRef=\"{para_pr}\" styleIDRef=\"0\" pageBreak=\"0\" columnBreak=\"0\" merged=\"0\">{body}</hp:p>")
}

fn text_run(char_pr: u32, text: &str) -> String {
    format!("<hp:run charPrIDRef=\"{char_pr}\"><hp:t>{text}</hp:t></hp:run>")
}

fn link_paragraph() -> String {
    paragraph(
        0,
        "<hp:run charPrIDRef=\"6\"><hp:ctrl><hp:fieldBegin id=\"7\" type=\"HYPERLINK\" fieldid=\"1\"><hp:parameters cnt=\"1\" name=\"\"><hp:stringParam name=\"Path\">https://example.com/</hp:stringParam></hp:parameters></hp:fieldBegin></hp:ctrl><hp:t>\u{BB38}\u{C11C} \u{C5F4}\u{AE30}</hp:t><hp:ctrl><hp:fieldEnd beginIDRef=\"7\" fieldid=\"1\"/></hp:ctrl><hp:t/></hp:run>",
    )
}

fn section(paragraphs: &[String]) -> String {
    format!("{SECTION_OPEN}{}</hs:sec>", paragraphs.concat())
}

fn sample_section() -> String {
    let heading = format!(
        "<hp:p id=\"1\" paraPrIDRef=\"1\" styleIDRef=\"2\" pageBreak=\"0\" columnBreak=\"0\" merged=\"0\">{}</hp:p>",
        text_run(0, "Title")
    );
    let body = paragraph(
        0,
        &format!(
            "{}{}<hp:run charPrIDRef=\"0\"><hp:t><hp:markpenBegin color=\"#F2F2F2\"/>code<hp:markpenEnd/></hp:t></hp:run><hp:linesegarray/>",
            text_run(0, "Hello "),
            text_run(1, "bold")
        ),
    );
    section(&[heading, body, paragraph(19, &text_run(0, "item")), paragraph(21, &text_run(2, "quoted"))])
}

fn build_hwpx_archive(entries: BTreeMap<String, Vec<u8>>) -> Vec<u8> {
    let mut bytes = Vec::new();
    let mut writer = zip::ZipWriter::new(std::io::Cursor::new(&mut bytes));
    let stored = SimpleFileOptions::default().compression_method(CompressionMethod::Stored);
    let deflated = SimpleFileOptions::default().compression_method(CompressionMethod::Deflated);
    for (path, contents) in entries {
        let options = if path == "mimetype" { stored } else { deflated };
        writer.start_file(path, options).unwrap();
        writer.write_all(&contents).unwrap();
    }
    writer.finish().unwrap();
    bytes
}

fn entries_with_section(section_xml: &str) -> BTreeMap<String, Vec<u8>> {
    BTreeMap::from([
        ("mimetype".to_string(), b"application/hwp+zip".to_vec()),
        ("Contents/content.hpf".to_string(), CONTENT_HPF.as_bytes().to_vec()),
        ("Contents/header.xml".to_string(), HEADER_XML.as_bytes().to_vec()),
        ("Contents/section0.xml".to_string(), section_xml.as_bytes().to_vec()),
    ])
}

fn package(section_xml: &str) -> Vec<u8> {
    build_hwpx_archive(entries_with_section(section_xml))
}

fn text(value: &str) -> Inline {
    Inline::Text(value.to_string())
}

fn sample_document() -> Document {
    Document {
        blocks: vec![
            Block::Heading { level: 1, content: vec![text("Title")] },
            Block::Paragraph(vec![text("Hello "), Inline::Strong(vec![text("bold")]), Inline::Code("code".to_string())]),
            Block::List(ListBlock {
                ordered: false,
                start_index: 1,
                items: vec![ListItem { blocks: vec![Block::Paragraph(vec![text("item")])] }],
            }),
            Block::BlockQuote(vec![Block::Paragraph(vec![Inline::Emphasis(vec![text("quoted")])])]),
        ],
    }
}

#[test]
fn parses_headings_styles_lists_and_quotes() {
    let parsed = parse_hwpx(&package(&sample_section())).unwrap();
    assert_eq!(parsed.document, sample_document());
    assert_eq!(
        parsed.metadata,
        RawHwpxMetadata {
            title: Some("Doc".to_string()),
            language: Some("ko".to_string()),
            creator: Some("me".to_string()),
            lastsaveby: None,
        }
    );
}

#[test]
fn rejects_non_zip_input() {
    let error = parse_hwpx(b"not a zip archive").unwrap_err();
    assert!(matches!(error, CoreRsError::InvalidHwpx(_)));
}

#[test]
fn rejects_missing_required_entry() {
    let bytes = build_hwpx_archive(BTreeMap::from([(
        "Contents/header.xml".to_string(),
        "<hh:head/>".as_bytes().to_vec(),
    )]));
    let error = parse_hwpx(&bytes).unwrap_err();
    assert!(matches!(error, CoreRsError::InvalidHwpx(_)));
}

#[test]
fn rejects_oversized_archive_entries() {
    let bytes = build_hwpx_archive(BTreeMap::from([
        ("mimetype".to_string(), b"application/hwp+zip".to_vec()),
        ("Contents/content.hpf".to_string(), vec![b'x'; 8 * 1024 * 1024 + 1]),
        ("Contents/header.xml".to_string(), b"<hh:head/>".to_vec()),
        ("Contents/section0.xml".to_string(), b"<hs:sec/>".to_vec()),
    ]));
    let error = parse_hwpx(&bytes).unwrap_err();
    assert!(matches!(error, CoreRsError::InvalidHwpx(_)));
}

#[test]
fn ignores_oversized_irrelevant_archive_entries() {
    let mut entries = entries_with_section(&sample_section());
    entries.insert("Preview/PrvImage.png".to_string(), vec![0_u8; 8 * 1024 * 1024 + 1]);
    let parsed = parse_hwpx(&build_hwpx_archive(entries)).unwrap();
    assert_eq!(parsed.document, sample_document());
}

#[test]
fn rejects_malformed_xml() {
    let bytes = package(&sample_section().replace("</hs:sec>", ""));
    let error = parse_hwpx(&bytes).unwrap_err();
    assert!(matches!(error, CoreRsError::InvalidHwpx(_)));
}

#[test]
fn rejects_missing_registry_reference() {
    let bytes = package(&sample_section().replacen("paraPrIDRef=\"0\"", "paraPrIDRef=\"999\"", 1));
    let error = parse_hwpx(&bytes).unwrap_err();
    assert!(matches!(error, CoreRsError::InvalidHwpx(_)));
    assert_eq!(error.detail(), "section paragraph references unknown paraPrIDRef 999");
}

#[test]
fn rejects_unbalanced_hyperlink_fields() {
    let xml = section(&[link_paragraph()]).replacen("<hp:ctrl><hp:fieldEnd", "<hp:ctrl><hp:fieldFinish", 1);
    let error = parse_hwpx(&package(&xml)).unwrap_err();
    assert!(matches!(error, CoreRsError::InvalidHwpx(_)));
}

#[test]
fn parses_hyperlink_with_trailing_text_after_field_end_in_same_run() {
    let xml = section(&[link_paragraph()]).replacen("<hp:t/></hp:run>", "<hp:t> \u{C774}\u{D6C4}</hp:t></hp:run>", 1);
    let parsed = parse_hwpx(&package(&xml)).unwrap();
    assert_eq!(
        parsed.document,
        Document {
            blocks: vec![Block::Paragraph(vec![
                Inline::Link {
                    text: vec![text("\u{BB38}\u{C11C} \u{C5F4}\u{AE30}")],
                    url: "https://example.com/".to_string(),
                },
                text(" \u{C774}\u{D6C4}"),
            ])],
        }
    );
}

#[test]
fn rejects_multiple_sections() {
    let mut entries = entries_with_section(&sample_section());
    entries.insert("Contents/section1.xml".to_string(), sample_section().into_bytes());
    let error = parse_hwpx(&build_hwpx_archive(entries)).unwrap_err();
    assert!(matches!(error, CoreRsError::UnsupportedFeature(_)));
}

#[test]
fn rejects_unsupported_control_shape() {
    let xml = sample_section().replacen("<hp:run charPrIDRef=\"1\">", "<hp:run charPrIDRef=\"1\"><hp:ctrl><hp:pic/></hp:ctrl>", 1);
    let error = parse_hwpx(&package(&xml)).unwrap_err();
    assert!(matches!(error, CoreRsError::UnsupportedFeature(_)));
}

fn table_paragraph(cell_body: &str) -> String {
    paragraph(
        0,
        &format!(
            "<hp:run charPrIDRef=\"0\"><hp:tbl><hp:tr><hp:tc><hp:subList>{}</hp:subList><hp:cellAddr colAddr=\"0\" rowAddr=\"0\"/></hp:tc></hp:tr><hp:tr><hp:tc><hp:subList>{}</hp:subList></hp:tc></hp:tr></hp:tbl></hp:run>",
            cell_body,
            paragraph(0, &text_run(0, "B"))
        ),
    )
}

#[test]
fn parses_a_table_with_a_header_row() {
    let xml = section(&[table_paragraph(&paragraph(0, &text_run(0, "A")))]);
    let parsed = parse_hwpx(&package(&xml)).unwrap();
    assert_eq!(
        parsed.document,
        Document {
            blocks: vec![Block::Table(TableBlock {
                aligns: vec![TableAlignment::Unaligned],
                headers: vec![vec![text("A")]],
                rows: vec![TableRow { cells: vec![vec![text("B")]] }],
            })],
        }
    );
}

#[test]
fn rejects_multiple_paragraphs_inside_a_table_cell() {
    let cell = format!("{}{}", paragraph(0, &text_run(0, "A")), paragraph(0, &text_run(0, "Extra")));
    let xml = section(&[table_paragraph(&cell)]);
    let error = parse_hwpx(&package(&xml)).unwrap_err();
    assert!(matches!(error, CoreRsError::UnsupportedFeature(_)));
}

#[test]
fn rejects_a_code_span_left_open() {
    let xml = section(&[paragraph(0, "<hp:run charPrIDRef=\"0\"><hp:t><hp:markpenBegin/>code</hp:t></hp:run>")]);
    let error = parse_hwpx(&package(&xml)).unwrap_err();
    assert_eq!(error, CoreRsError::InvalidHwpx("unterminated markpen code span".to_string()));
}

#[test]
fn rejects_a_root_that_is_not_a_section() {
    let error = parse_hwpx(&package("<hs:body xmlns:hs=\"urn:x\"/>")).unwrap_err();
    assert_eq!(error, CoreRsError::InvalidHwpx("Contents/section0.xml root element must be hs:sec".to_string()));
}

#[test]
fn registry_reads_contracts_headings_and_character_styles() {
    let registry = parse_registry(HEADER_XML).unwrap();
    assert_eq!(registry.char_style(1), CharStyle::Bold);
    assert_eq!(registry.char_style(2), CharStyle::Italic);
    assert_eq!(registry.char_style(99), CharStyle::Plain);
    assert_eq!(registry.heading_level(2), Some(1));
    assert_eq!(registry.heading_level(0), None);
    assert_eq!(
        registry.paragraph(19).unwrap().list,
        Some(ListInfo { kind: ListKind::Unordered, depth: 1 })
    );
    assert_eq!(registry.paragraph(21).unwrap().quote_depth, 1);
    let error = registry.paragraph(7).unwrap_err();
    assert_eq!(error.detail(), "section paragraph references unknown paraPrIDRef 7");
}

#[test]
fn registry_refuses_a_style_with_an_unknown_paragraph_property() {
    let header = HEADER_XML.replace("paraPrIDRef=\"1\"/>", "paraPrIDRef=\"5\"/>");
    let error = parse_registry(&header).unwrap_err();
    assert_eq!(error, CoreRsError::InvalidHwpx("style 2 references unknown paraPrIDRef 5".to_string()));
}

#[test]
fn metadata_requires_a_metadata_element() {
    let error = parse_metadata("<opf:package xmlns:opf=\"urn:x\"/>").unwrap_err();
    assert_eq!(error, CoreRsError::InvalidHwpx("missing opf:metadata in Contents/content.hpf".to_string()));
    let error = parse_metadata("<a>").unwrap_err();
    assert!(error.detail().starts_with("invalid Contents/content.hpf XML: "));
}

#[test]
fn parses_normalized_text_and_required_u32_attr() {
    let nodes = read_xml(r#"<root value="42">  hello  </root>"#).unwrap();
    let root = 1;
    assert_eq!(nodes[root].name, "root");
    assert_eq!(normalized_node_text(&nodes, root), "hello");
    assert_eq!(required_u32_attr(&nodes, root, "value", "root").unwrap(), 42);
    let error = required_u32_attr(&nodes, root, "missing", "root").unwrap_err();
    assert_eq!(error.detail(), "missing missing attribute on root");
}

#[test]
fn parsing_a_generated_package_gives_back_the_document() {
    let markdown = "Hello";
    let header = HEADER_XML.to_string();
    let parts = HwpxPackageParts {
        header_template: header.clone(),
        settings_template: "<ha:CaretPosition paraIDRef=\"0\" pos=\"45\"/>".to_string(),
        version_xml: "<hv:HCFVersion xmlns:hv=\"urn:v\"/>".to_string(),
        container_xml: "<ocf:container xmlns:ocf=\"urn:c\"/>".to_string(),
        container_rdf_xml: "<rdf:RDF xmlns:rdf=\"urn:r\"/>".to_string(),
        manifest_xml: "<odf:manifest xmlns:odf=\"urn:m\"/>".to_string(),
        content_hpf: CONTENT_HPF.to_string(),
        preview_image: vec![1],
        core_paragraph_preview_image: vec![2],
        profile_headers: ProfileHeaderTemplates {
            core_paragraph: header.clone(),
            core_inline_style: header.clone(),
            core_link_text: header.clone(),
            core_mixed: header.clone(),
            style_brand_color: header.clone(),
            style_centered_layout: header.clone(),
            style_typography: header,
        },
        compat_sections: CompatSectionTemplates {
            core_paragraph_section: String::new(),
            core_paragraph_preview: String::new(),
            style_brand_color_section: String::new(),
            style_brand_color_preview: String::new(),
        },
    };
    let bytes = generate_hwpx(markdown, HwpxOptions::default(), parts).unwrap();
    let parsed = parse_hwpx(&bytes).unwrap();
    let expected = MarkdownParser::new(true).parse(markdown).unwrap();
    assert_eq!(parsed.document, expected);
}

#[test]
fn renders_stable_semantic_dump_for_debugging() {
    let dump = debug_parse_hwpx(&package(&sample_section())).unwrap();
    assert!(dump.contains("metadata:\n"));
    assert!(dump.contains("document:\n"));
    assert!(dump.contains("paragraph([text("));
    assert_eq!(
        dump,
        concat_lines(&[
            "metadata:",
            "  title: \"Doc\"",
            "  language: \"ko\"",
            "  creator: \"me\"",
            "  lastsaveby: null",
            "document:",
            "  heading(level=1, content=[text(\"Title\")])",
            "  paragraph([text(\"Hello \"), strong([text(\"bold\")]), code(\"code\")])",
            "  list(ordered=false, start_index=1):",
            "    item:",
            "      paragraph([text(\"item\")])",
            "  blockquote:",
            "    paragraph([emphasis([text(\"quoted\")])])",
        ])
    );
}

fn concat_lines(lines: &[&str]) -> String {
    let mut out = String::new();
    for line in lines {
        out.push_str(line);
        out.push('\n');
    }
    out
}

#[test]
fn dumps_a_table_with_its_alignments() {
    let xml = section(&[table_paragraph(&paragraph(0, &text_run(0, "A")))]);
    let dump = debug_parse_hwpx(&package(&xml)).unwrap();
    assert!(dump.ends_with("  table:\n    aligns: [None]\n    headers: [[text(\"A\")]]\n    rows:\n      [[text(\"B\")]]\n"));
}
