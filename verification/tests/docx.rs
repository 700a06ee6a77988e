use std::io::{Cursor, Read};

use core_rs::generators::docx::templates::{core_properties, root_relationships, styles};
use core_rs::generators::docx::xml_builder::{image_run, paragraph_with_properties, text_run, wrap_document, RunStyle};
use core_rs::utils::image_helper::image_dimensions;
use core_rs::utils::zip_archiver::{zip_entries, ArchiveEntry, Compression};
use core_rs::{analyze_markdown, generate_docx, generate_docx_with_report, ConversionTarget, CoreRsError, DocxOptions, IssueSeverity};

const PNG_DATA_URI: &str = "data:image/png;base64,iVBORw0KGgoAAAANSUhEUgAAAAEAAAABCAQAAAC1HAwCAAAAC0lEQVR42mP8/x8AAwMCAO+a7mQAAAAASUVORK5CYII=";

fn entry_names(bytes: &[u8]) -> Vec<String> {
    let archive = zip::ZipArchive::new(Cursor::new(bytes.to_vec())).unwrap();
    archive.file_names().map(|name| name.to_string()).collect()
}

fn read_entry(bytes: &[u8], name: &str) -> String {
    let mut archive = zip::ZipArchive::new(Cursor::new(bytes.to_vec())).unwrap();
    let mut file = archive.by_name(name).unwrap();
    let mut text = String::new();
    file.read_to_string(&mut text).unwrap();
    text
}

fn options() -> DocxOptions {
    DocxOptions { title: Some("Report".to_string()), author: Some("Kim".to_string()), strict_mode: true }
}

#[test]
fn text_run_escapes_and_preserves_spaces() {
    assert_eq!(text_run("a<b", RunStyle::plain()), "<w:r><w:t>a&lt;b</w:t></w:r>");
    assert_eq!(
        text_run(" x ", RunStyle { bold: true, italic: true, code: false, hyperlink: false }),
        "<w:r><w:rPr><w:b/><w:i/></w:rPr><w:t xml:space=\"preserve\"> x </w:t></w:r>"
    );
}

#[test]
fn paragraph_properties_are_optional() {
    assert_eq!(paragraph_with_properties("", "<w:r/>"), "<w:p><w:r/></w:p>");
    assert_eq!(paragraph_with_properties("<w:jc/>", ""), "<w:p><w:pPr><w:jc/></w:pPr></w:p>");
}

#[test]
fn document_wrapper_holds_the_body() {
    let xml = wrap_document("<w:p/>");
    assert!(xml.starts_with("<?xml version=\"1.0\" encoding=\"UTF-8\" standalone=\"yes\"?><w:document"));
    assert!(xml.contains("<w:body><w:p/><w:sectPr>"));
    assert!(xml.ends_with("</w:sectPr></w:body></w:document>"));
}

#[test]
fn image_run_carries_ids_and_extent() {
    let xml = image_run("rImage1", "a\"b", 1, 2, 9525, -5);
    assert!(xml.contains("<wp:extent cx=\"9525\" cy=\"-5\"/>"));
    assert!(xml.contains("<wp:docPr id=\"1\" name=\"Picture\" descr=\"a&quot;b\"/>"));
    assert!(xml.contains("<pic:cNvPr id=\"2\" name=\"Image\" descr=\"a&quot;b\"/>"));
    assert!(xml.contains("<a:blip r:embed=\"rImage1\"/>"));
}

#[test]
fn styles_include_deeper_headings_only_when_used() {
    assert!(!styles(3).contains("Heading4"));
    assert!(styles(4).contains("w:styleId=\"Heading4\""));
    assert!(!styles(5).contains("Heading6"));
    assert!(styles(6).contains("w:styleId=\"Heading6\""));
    assert!(styles(0).ends_with("</w:style></w:styles>"));
}

#[test]
fn core_properties_escape_title_and_author() {
    let xml = core_properties("A & B", "<me>");
    assert!(xml.contains("<dc:title>A &amp; B</dc:title><dc:creator>&lt;me&gt;</dc:creator><cp:lastModifiedBy>&lt;me&gt;</cp:lastModifiedBy>"));
    assert!(root_relationships().contains("Target=\"word/document.xml\""));
}

#[test]
fn reads_png_and_gif_dimensions() {
    let mut png = vec![0x89, b'P', b'N', b'G', 0x0D, 0x0A, 0x1A, 0x0A];
    png.extend_from_slice(&[0; 8]);
    png.extend_from_slice(&[0, 0, 1, 2, 0, 0, 0, 0]);
    assert_eq!(image_dimensions("image/png", &png).unwrap(), (258, 1));
    let gif = b"GIF89a\x10\x00\x20\x00".to_vec();
    assert_eq!(image_dimensions("image/gif", &gif).unwrap(), (16, 32));
    assert_eq!(
        image_dimensions("image/gif", &b"GIF88a\x10\x00\x20\x00".to_vec()).unwrap_err(),
        CoreRsError::InvalidMarkdown("invalid GIF image data".to_string())
    );
    assert_eq!(
        image_dimensions("image/webp", &vec![]).unwrap_err(),
        CoreRsError::UnsupportedFeature("unsupported image mime type: image/webp".to_string())
    );
}

#[test]
fn reads_jpeg_dimensions_from_the_frame_header() {
    let jpeg = vec![
        0xFF, 0xD8, 0xFF, 0xE0, 0x00, 0x04, 0x00, 0x00, 0xFF, 0xC0, 0x00, 0x08, 0x08, 0x00, 0x30, 0x00,
        0x40, 0x03, 0x00, 0x00,
    ];
    assert_eq!(image_dimensions("image/jpeg", &jpeg).unwrap(), (64, 48));
    assert_eq!(
        image_dimensions("image/jpg", &vec![0xFF, 0xD8, 0xFF, 0xD9, 0, 0, 0, 0, 0, 0]).unwrap_err(),
        CoreRsError::InvalidMarkdown("could not determine JPEG image dimensions".to_string())
    );
    assert_eq!(
        image_dimensions("image/jpeg", &vec![0x00, 0xD8, 0xFF]).unwrap_err(),
        CoreRsError::InvalidMarkdown("invalid JPEG image data".to_string())
    );
}

#[test]
fn zips_entries_sorted_by_path() {
    let entries = vec![
        ArchiveEntry::new_text("b.txt", "b".to_string()),
        ArchiveEntry::new_bytes("a.bin", vec![1, 2]),
        ArchiveEntry::new_text_with_compression("c/d.xml", "<x/>".to_string(), Compression::Deflated),
    ];
    let bytes = zip_entries(entries).unwrap();
    assert_eq!(entry_names(&bytes), vec!["a.bin", "b.txt", "c/d.xml"]);
    assert_eq!(read_entry(&bytes, "c/d.xml"), "<x/>");
}

#[test]
fn generates_a_docx_package() {
    let bytes = generate_docx("# Title\n\nHello *world* and [docs](https://example.com).", options()).unwrap();
    assert_eq!(
        entry_names(&bytes),
        vec![
            "[Content_Types].xml",
            "_rels/.rels",
            "docProps/core.xml",
            "word/_rels/document.xml.rels",
            "word/document.xml",
            "word/styles.xml",
        ]
    );
    let document = read_entry(&bytes, "word/document.xml");
    assert!(document.contains(
        "<w:body><w:p><w:pPr><w:pStyle w:val=\"Heading1\"/></w:pPr><w:r><w:t>Title</w:t></w:r></w:p><w:p><w:r><w:t xml:space=\"preserve\">Hello </w:t></w:r><w:r><w:rPr><w:i/></w:rPr><w:t>world</w:t></w:r><w:r><w:t xml:space=\"preserve\"> and </w:t></w:r><w:hyperlink r:id=\"rLink1\" w:history=\"1\"><w:r><w:rPr><w:rStyle w:val=\"Hyperlink\"/></w:rPr><w:t>docs</w:t></w:r></w:hyperlink><w:r><w:t>.</w:t></w:r></w:p><w:sectPr>"
    ));
    let rels = read_entry(&bytes, "word/_rels/document.xml.rels");
    assert!(rels.contains("<Relationship Id=\"rLink1\" Type=\"http://schemas.openxmlformats.org/officeDocument/2006/relationships/hyperlink\" Target=\"https://example.com\" TargetMode=\"External\"/>"));
    assert!(read_entry(&bytes, "docProps/core.xml").contains("<dc:title>Report</dc:title><dc:creator>Kim</dc:creator>"));
}

#[test]
fn embeds_data_uri_images() {
    let bytes = generate_docx(&format!("![tiny]({PNG_DATA_URI})"), options()).unwrap();
    let names = entry_names(&bytes);
    assert!(names.contains(&"word/media/image1.png".to_string()));
    let types = read_entry(&bytes, "[Content_Types].xml");
    assert!(types.contains("<Default Extension=\"png\" ContentType=\"image/png\"/>"));
    let rels = read_entry(&bytes, "word/_rels/document.xml.rels");
    assert!(rels.contains("<Relationship Id=\"rImage1\" Type=\"http://schemas.openxmlformats.org/officeDocument/2006/relationships/image\" Target=\"media/image1.png\"/>"));
    let document = read_entry(&bytes, "word/document.xml");
    assert!(document.contains("<wp:extent cx=\"9525\" cy=\"9525\"/>"));
}

#[test]
fn renders_lists_quotes_code_and_tables() {
    let markdown = "> quote\n\n```\na\nb\n```\n\n1. one\n2. two\n\n| h |\n| :-: |\n| c |\n\n---";
    let bytes = generate_docx(markdown, options()).unwrap();
    let document = read_entry(&bytes, "word/document.xml");
    assert!(document.contains("<w:p><w:pPr><w:ind w:left=\"720\"/><w:pBdr><w:left w:val=\"single\" w:sz=\"8\" w:space=\"8\" w:color=\"B7B7B7\"/></w:pBdr></w:pPr><w:r><w:t>quote</w:t></w:r></w:p>"));
    assert!(document.contains("<w:r><w:rPr><w:rFonts w:ascii=\"Courier New\" w:hAnsi=\"Courier New\"/></w:rPr><w:t>a</w:t></w:r><w:r><w:br/></w:r><w:r><w:rPr><w:rFonts w:ascii=\"Courier New\" w:hAnsi=\"Courier New\"/></w:rPr><w:t>b</w:t></w:r>"));
    assert!(document.contains("<w:ind w:left=\"720\" w:hanging=\"360\"/></w:pPr><w:r><w:t xml:space=\"preserve\">1. </w:t></w:r><w:r><w:t>one</w:t></w:r>"));
    assert!(document.contains("<w:t xml:space=\"preserve\">2. </w:t>"));
    assert!(document.contains("<w:tblGrid><w:gridCol w:w=\"2400\"/></w:tblGrid><w:tr><w:tc><w:tcPr><w:shd w:val=\"clear\" w:color=\"auto\" w:fill=\"EFEFEF\"/></w:tcPr><w:p><w:pPr><w:jc w:val=\"center\"/></w:pPr><w:r><w:rPr><w:b/></w:rPr><w:t>h</w:t></w:r></w:p></w:tc></w:tr>"));
    assert!(document.contains("<w:pBdr><w:bottom w:val=\"single\" w:sz=\"6\" w:space=\"1\" w:color=\"auto\"/></w:pBdr>"));
}

#[test]
fn strict_mode_rejects_html_and_reports_it() {
    let error = generate_docx("<b>x</b>", options()).unwrap_err();
    assert_eq!(error, CoreRsError::UnsupportedFeature("html".to_string()));
    let failure = generate_docx_with_report("<b>x</b>", options()).unwrap_err();
    assert_eq!(failure.error, CoreRsError::UnsupportedFeature("html".to_string()));
    assert_eq!(failure.report.issues.len(), 1);
    assert_eq!(failure.report.issues[0].feature, "HTML");
    assert_eq!(failure.report.issues[0].message, "unsupported feature: html");
    assert_eq!(failure.report.issues[0].severity, IssueSeverity::Error);
    assert_eq!(failure.report.unsupported_count, 1);
}

#[test]
fn compat_mode_reports_fallbacks() {
    let compat = DocxOptions { strict_mode: false, ..options() };
    let result = generate_docx_with_report("<b>x</b> $m$", compat).unwrap();
    let features: Vec<&str> = result.report.issues.iter().map(|issue| issue.feature.as_str()).collect();
    assert_eq!(features, vec!["HTML", "math"]);
    assert!(result.report.degraded);
    assert_eq!(result.report.fallback_count, 2);
    assert!(result.bytes.starts_with(b"PK"));
}

#[test]
fn analysis_for_hwpx_adds_document_issues() {
    let report = analyze_markdown("1. one\n\n```\ncode\n```\n\n![x](data:image/png;base64,AAAA)", ConversionTarget::Hwpx);
    let features: Vec<&str> = report.issues.iter().map(|issue| issue.feature.as_str()).collect();
    assert_eq!(features, vec!["HWPX ordered list in strict mode", "HWPX unsupported rich block", "HWPX image"]);
    let docx = analyze_markdown("1. one", ConversionTarget::Docx);
    assert!(docx.issues.is_empty());
    assert!(!docx.degraded);
}

#[test]
fn analysis_reports_non_data_images_and_deep_lists() {
    let report = analyze_markdown("![a](./a.png)\n\n- a\n  - b\n    - c\n", ConversionTarget::Docx);
    let features: Vec<&str> = report.issues.iter().map(|issue| issue.feature.as_str()).collect();
    assert_eq!(features, vec!["non-data image", "deep nested list"]);
    assert_eq!(report.issues[0].message, "unsupported feature: image");
}

#[test]
fn strict_docx_agrees_with_lenient_docx() {
    let markdown = "# Title\n\nSome **bold** and [a link](https://example.com).\n\n1. one\n2. two";
    let strict = generate_docx(markdown, options()).unwrap();
    let lenient = generate_docx(markdown, DocxOptions { strict_mode: false, ..options() }).unwrap();
    assert_eq!(strict, lenient);
}
