use std::io::{Cursor, Read};

use core_rs::generators::hwpx::header::build_header_xml;
use core_rs::generators::hwpx::items::equal_widths;
use core_rs::generators::hwpx::normalize::normalize_hwpx_markdown;
use core_rs::generators::hwpx::package::{mimetype, settings_xml};
use core_rs::generators::hwpx::profile::{resolve_compatibility_profile, CompatibilityProfile};
use core_rs::generators::hwpx::runs::{merge_adjacent_runs, RunSpec};
use core_rs::generators::hwpx::compat::CompatSectionTemplates;
use core_rs::generators::hwpx::generator::ProfileHeaderTemplates;
use core_rs::generators::hwpx::section::{
    build_preview_text, build_section_xml, set_settings_caret, set_settings_caret_pos, CaretPosition,
};
use core_rs::generators::hwpx::style::ResolvedHwpxStyle;
use core_rs::models::document::Document;
use core_rs::parser::markdown::MarkdownParser;
use core_rs::{
    generate_hwpx, generate_hwpx_with_report, CoreRsError, HwpxOptions, HwpxPackageParts, HwpxParagraphAlign,
    HwpxStyleOptions, IssueSeverity,
};

const FIXTURE_FIRST: &str = "\u{BE0C}\u{B77C}\u{C6B0}\u{C800}\u{C640} Rust \u{CF54}\u{C5B4}\u{B97C} \u{ACF5}\u{C720}\u{D558}\u{B294} \u{AE30}\u{BCF8} \u{BB38}\u{B2E8}\u{C785}\u{B2C8}\u{B2E4}. \u{BE0C}\u{B77C}\u{C6B0}\u{C800}\u{C640} Rust \u{CF54}\u{C5B4}\u{B97C} \u{ACF5}\u{C720}\u{D558}\u{B294} \u{AE30}\u{BCF8} \u{BB38}\u{B2E8}\u{C785}\u{B2C8}\u{B2E4}. \u{BE0C}\u{B77C}\u{C6B0}\u{C800}\u{C640} Rust \u{CF54}\u{C5B4}\u{B97C} \u{ACF5}\u{C720}\u{D558}\u{B294} \u{AE30}\u{BCF8} \u{BB38}\u{B2E8}\u{C785}\u{B2C8}\u{B2E4}.";
const FIXTURE_SECOND: &str = "This is Second Contents. This is Second Contents. This is Second Contents. This is Second Contents. This is Second Contents.";

const HEADER_TEMPLATE: &str = "<hh:head><hh:fontfaces><hh:font face=\"\u{D568}\u{CD08}\u{B86C}\u{BC14}\u{D0D5}\"/><hh:font face=\"\u{D568}\u{CD08}\u{B86C}\u{B3CB}\u{C6C0}\"/></hh:fontfaces><hh:borderFills itemCnt=\"2\"><hh:borderFill id=\"1\"/><hh:borderFill id=\"2\"/></hh:borderFills><hh:charProperties itemCnt=\"7\"><hh:charPr id=\"6\" height=\"1000\">old</hh:charPr></hh:charProperties><hh:numberings itemCnt=\"1\"><hh:numbering id=\"1\"/></hh:numberings><hh:paraProperties itemCnt=\"19\"><hh:paraPr id=\"0\"><hh:align horizontal=\"JUSTIFY\" vertical=\"BASELINE\"/></hh:paraPr></hh:paraProperties></hh:head>";

fn parse(markdown: &str, strict: bool) -> Document {
    MarkdownParser::new(strict).parse(markdown).unwrap()
}

fn default_style() -> ResolvedHwpxStyle {
    ResolvedHwpxStyle::from_options(&HwpxOptions::default()).unwrap()
}

fn parts() -> HwpxPackageParts {
    HwpxPackageParts {
        header_template: HEADER_TEMPLATE.to_string(),
        settings_template: "<ha:HWPApplicationSetting><ha:CaretPosition listIDRef=\"0\" paraIDRef=\"0\" pos=\"45\"/></ha:HWPApplicationSetting>".to_string(),
        version_xml: "<hv:HCFVersion/>".to_string(),
        container_xml: "<ocf:container/>".to_string(),
        container_rdf_xml: "<rdf:RDF/>".to_string(),
        manifest_xml: "<odf:manifest/>".to_string(),
        content_hpf: "<opf:package/>".to_string(),
        preview_image: vec![1, 2, 3],
        core_paragraph_preview_image: vec![9, 9],
        profile_headers: ProfileHeaderTemplates {
            core_paragraph: "<hh:head id=\"core-paragraph\"/>".to_string(),
            core_inline_style: "<hh:head id=\"core-inline-style\"/>".to_string(),
            core_link_text: "<hh:head id=\"core-link-text\"/>".to_string(),
            core_mixed: "<hh:head id=\"core-mixed\"/>".to_string(),
            style_brand_color: "<hh:head id=\"style-brand-color\"/>".to_string(),
            style_centered_layout: "<hh:head id=\"style-centered-layout\"/>".to_string(),
            style_typography: "<hh:head id=\"style-typography\"/>".to_string(),
        },
        compat_sections: CompatSectionTemplates {
            core_paragraph_section: "<hs:sec id=\"core-paragraph\"/>".to_string(),
            core_paragraph_preview: "core paragraph preview".to_string(),
            style_brand_color_section: "<hs:sec id=\"style-brand-color\"/>".to_string(),
            style_brand_color_preview: "brand preview".to_string(),
        },
    }
}

fn read_entry(bytes: &[u8], name: &str) -> Vec<u8> {
    let mut archive = zip::ZipArchive::new(Cursor::new(bytes.to_vec())).unwrap();
    let mut file = archive.by_name(name).unwrap();
    let mut data = Vec::new();
    file.read_to_end(&mut data).unwrap();
    data
}

#[test]
fn section_xml_opens_with_the_section_properties() {
    let document = parse("Hello", true);
    let xml = build_section_xml(&document, true, &default_style()).unwrap();
    assert!(xml.starts_with("<?xml version=\"1.0\" encoding=\"UTF-8\" standalone=\"yes\" ?><hs:sec xmlns:ha="));
    assert!(xml.contains("<hp:p id=\"2757524817\" paraPrIDRef=\"0\" styleIDRef=\"0\" pageBreak=\"0\" columnBreak=\"0\" merged=\"0\"><hp:run charPrIDRef=\"6\"><hp:secPr id=\"\""));
    assert!(xml.contains("<hp:run charPrIDRef=\"6\"><hp:t>Hello</hp:t></hp:run><hp:linesegarray><hp:lineseg textpos=\"0\" vertpos=\"0\" vertsize=\"1000\" textheight=\"1000\" baseline=\"850\" spacing=\"600\" horzpos=\"0\" horzsize=\"42520\" flags=\"393216\"/></hp:linesegarray></hp:p>"));
    assert!(xml.ends_with("</hp:p></hs:sec>"));
    assert_eq!(xml.matches("<hp:secPr").count(), 1);
}

#[test]
fn section_paragraphs_get_consecutive_ids_and_styles() {
    let document = parse("# Title\n\nA **b** & c", true);
    let xml = build_section_xml(&document, true, &default_style()).unwrap();
    assert!(xml.contains("<hp:p id=\"2757524817\" paraPrIDRef=\"2\" styleIDRef=\"2\""));
    assert!(xml.contains("<hp:run charPrIDRef=\"10\"><hp:t>Title</hp:t></hp:run>"));
    assert!(xml.contains("<hp:p id=\"2757524818\" paraPrIDRef=\"0\" styleIDRef=\"0\" pageBreak=\"0\" columnBreak=\"0\" merged=\"0\"><hp:run charPrIDRef=\"6\"><hp:t>A </hp:t></hp:run><hp:run charPrIDRef=\"7\"><hp:t>b</hp:t></hp:run><hp:run charPrIDRef=\"6\"><hp:t> &amp; c</hp:t></hp:run>"));
}

#[test]
fn list_paragraphs_move_down_the_page() {
    let document = parse("- a\n- b", true);
    let xml = build_section_xml(&document, true, &default_style()).unwrap();
    assert!(xml.contains("paraPrIDRef=\"19\""));
    assert!(xml.contains("vertpos=\"0\" vertsize=\"1000\" textheight=\"1000\" baseline=\"850\" spacing=\"600\" horzpos=\"1100\" horzsize=\"41420\" flags=\"2490368\""));
    assert!(xml.contains("vertpos=\"2300\" vertsize=\"1000\" textheight=\"1000\" baseline=\"850\" spacing=\"600\" horzpos=\"1100\" horzsize=\"41420\" flags=\"2490368\""));
}

#[test]
fn empty_heading_gets_an_empty_run() {
    let document = parse("#", true);
    let xml = build_section_xml(&document, true, &default_style()).unwrap();
    assert!(xml.contains("<hp:run charPrIDRef=\"10\"><hp:t></hp:t></hp:run>"));
}

#[test]
fn table_section_holds_the_table_markup() {
    let document = parse("| a | b |\n|---|---|\n| 1 | 2 |", true);
    let xml = build_section_xml(&document, true, &default_style()).unwrap();
    assert!(xml.contains("<hp:run charPrIDRef=\"6\"><hp:tbl id=\"2104760845\""));
    assert!(xml.contains("rowCnt=\"2\" colCnt=\"2\""));
    assert!(xml.contains("<hp:t/></hp:run><hp:linesegarray><hp:lineseg textpos=\"0\" vertpos=\"0\" vertsize=\"4412\" textheight=\"4412\" baseline=\"3750\""));
}

#[test]
fn strict_section_rejects_ordered_lists() {
    let document = parse("1. one", true);
    let err = build_section_xml(&document, true, &default_style()).unwrap_err();
    assert_eq!(err, CoreRsError::UnsupportedFeature("HWPX approved baseline does not support ordered list".to_string()));
}

#[test]
fn preview_joins_lines_and_keeps_the_default_caret() {
    let document = parse("# Title\n\nBody", true);
    let mut caret = CaretPosition { para_id_ref: 7, pos: 7 };
    let text = build_preview_text(&document, true, &mut caret).unwrap();
    assert_eq!(text, "Title\r\nBody");
    assert_eq!(caret, CaretPosition { para_id_ref: 0, pos: 45 });
}

#[test]
fn preview_caret_follows_the_last_unordered_item() {
    let document = parse("Intro\n\n- a\n- bb", true);
    let mut caret = CaretPosition::default();
    let text = build_preview_text(&document, true, &mut caret).unwrap();
    assert_eq!(text, "Intro\r\na\r\nbb");
    assert_eq!(caret, CaretPosition { para_id_ref: 2, pos: 2 });
}

#[test]
fn preview_caret_for_single_level_ordered_lists_takes_the_item_before_last() {
    let document = parse("1. x\n2. yy", false);
    let mut caret = CaretPosition::default();
    let text = build_preview_text(&document, false, &mut caret).unwrap();
    assert_eq!(text, "x\r\nyy");
    assert_eq!(caret, CaretPosition { para_id_ref: 0, pos: 1 });
}

#[test]
fn preview_of_a_table_brackets_cells_and_moves_the_caret() {
    let document = parse("| a | b |\n|---|---|\n| 1 | 2 |", true);
    let mut caret = CaretPosition::default();
    let text = build_preview_text(&document, true, &mut caret).unwrap();
    assert_eq!(text, "<a><b>\r\n<1><2>");
    assert_eq!(caret, CaretPosition { para_id_ref: 0, pos: 16 });
}

#[test]
fn failed_preview_leaves_the_caret() {
    let document = parse("1. one", true);
    let mut caret = CaretPosition { para_id_ref: 3, pos: 4 };
    assert!(build_preview_text(&document, true, &mut caret).is_err());
    assert_eq!(caret, CaretPosition { para_id_ref: 3, pos: 4 });
}

#[test]
fn caret_setters_move_the_caret() {
    let mut caret = CaretPosition::default();
    assert_eq!(caret, CaretPosition { para_id_ref: 0, pos: 45 });
    set_settings_caret(&mut caret, 4, 9);
    assert_eq!(caret, CaretPosition { para_id_ref: 4, pos: 9 });
    set_settings_caret_pos(&mut caret, 16);
    assert_eq!(caret, CaretPosition { para_id_ref: 0, pos: 16 });
}

#[test]
fn settings_record_the_caret() {
    let template = "<c paraIDRef=\"0\" pos=\"45\"/><d paraIDRef=\"0\"/>";
    let xml = settings_xml(template, &CaretPosition { para_id_ref: 2, pos: 7 });
    assert_eq!(xml, "<c paraIDRef=\"2\" pos=\"7\"/><d paraIDRef=\"2\"/>");
    assert_eq!(mimetype(), "application/hwp+zip");
}

#[test]
fn default_header_for_plain_text_is_the_template() {
    let document = parse("plain", true);
    assert_eq!(build_header_xml(HEADER_TEMPLATE, &document, &default_style()), HEADER_TEMPLATE);
}

#[test]
fn default_header_gains_character_styles_tables_and_bullets() {
    let document = parse("**b**\n\n| a |\n|---|\n| 1 |\n\n- x\n  - y", true);
    let header = build_header_xml(HEADER_TEMPLATE, &document, &default_style());
    assert!(header.contains("<hh:charProperties itemCnt=\"15\">"));
    assert!(header.contains("<hh:charPr id=\"14\" height=\"1000\" textColor=\"#0563C1\""));
    assert!(header.contains("<hh:borderFills itemCnt=\"3\">"));
    assert!(header.contains("<hh:borderFill id=\"3\" threeD=\"0\""));
    assert!(header.contains("</hh:numberings><hh:bullets itemCnt=\"1\">"));
    assert!(header.contains("<hh:paraProperties itemCnt=\"21\">"));
    assert!(header.contains("<hh:paraPr id=\"19\"") && header.contains("<hh:paraPr id=\"20\""));
    assert!(header.ends_with("</hh:paraPr></hh:paraProperties></hh:head>"));
}

#[test]
fn header_for_nested_ordered_lists_adds_two_numberings() {
    let document = parse("1. a\n   1. b", false);
    let header = build_header_xml(HEADER_TEMPLATE, &document, &default_style());
    assert!(header.contains("<hh:numberings itemCnt=\"3\">"));
    assert!(header.contains("<hh:numbering id=\"2\" start=\"1\">"));
    assert!(header.contains("<hh:numbering id=\"3\" start=\"0\">"));
    assert!(header.contains("<hh:heading type=\"NUMBER\" idRef=\"2\" level=\"0\"/>"));
    assert!(header.contains("<hc:left value=\"2200\" unit=\"HWPUNIT\"/>") && header.contains("<hc:left value=\"4400\" unit=\"HWPUNIT\"/>"));
}

#[test]
fn custom_style_rewrites_fonts_character_styles_and_alignment() {
    let options = HwpxOptions {
        style: HwpxStyleOptions {
            body_font: Some("Arial".to_string()),
            paragraph_align: Some(HwpxParagraphAlign::Center),
            text_color: Some("#123abc".to_string()),
            ..HwpxStyleOptions::default()
        },
        ..HwpxOptions::default()
    };
    let style = ResolvedHwpxStyle::from_options(&options).unwrap();
    let document = parse("plain", true);
    let header = build_header_xml(HEADER_TEMPLATE, &document, &style);
    assert!(header.contains("<hh:font face=\"Arial\"/>"));
    assert!(header.contains("<hh:charPr id=\"6\" height=\"1000\" textColor=\"#123ABC\" shadeColor=\"none\""));
    assert!(!header.contains(">old<"));
    assert!(header.contains("<hh:align horizontal=\"CENTER\" vertical=\"BASELINE\"/>"));
    assert!(header.contains("<hh:charPr id=\"9\" height=\"1000\" textColor=\"#333333\""));
    assert!(header.contains("<hh:spacing hangul=\"-5\""));
}

#[test]
fn lenient_markdown_indents_shallow_ordered_items() {
    assert_eq!(normalize_hwpx_markdown("1. a\n  2. b\nx"), "1. a\n   2. b\nx");
    assert_eq!(normalize_hwpx_markdown("  10. ten\r\n"), "   10. ten\r\n");
    assert_eq!(normalize_hwpx_markdown("  1.x\n  a. b\n   1. c"), "  1.x\n  a. b\n   1. c");
    assert_eq!(normalize_hwpx_markdown(""), "");
    let once = normalize_hwpx_markdown("  1. a\n  2. b");
    assert_eq!(normalize_hwpx_markdown(&once), once);
}

#[test]
fn profiles_follow_the_document_shape() {
    let style = default_style();
    let profile = |md: &str| resolve_compatibility_profile(&parse(md, false), &style);
    assert_eq!(profile("Hello"), CompatibilityProfile::CoreParagraph);
    assert_eq!(profile("[site](https://example.com)"), CompatibilityProfile::CoreLinkText);
    assert_eq!(profile("**bold** text"), CompatibilityProfile::CoreInlineStyle);
    assert_eq!(profile("# H\n\n*a* b\n\nplain"), CompatibilityProfile::CoreMixed);
    assert_eq!(profile(&format!("{FIXTURE_FIRST}\n\n{FIXTURE_SECOND}")), CompatibilityProfile::CoreParagraphFixture);
    assert_eq!(profile("a\n\nb\n\nc"), CompatibilityProfile::LegacyDefault);
    let left = ResolvedHwpxStyle::from_options(&HwpxOptions {
        style: HwpxStyleOptions { paragraph_align: Some(HwpxParagraphAlign::Left), ..HwpxStyleOptions::default() },
        ..HwpxOptions::default()
    })
    .unwrap();
    let doc = parse("# H\n\n**a** `c` [l](https://x.y)", true);
    assert_eq!(resolve_compatibility_profile(&doc, &left), CompatibilityProfile::StyleBrandColor);
    assert_eq!(resolve_compatibility_profile(&parse("Hello", true), &left), CompatibilityProfile::LegacyDefault);
}

#[test]
fn merged_runs_alternate_and_keep_text() {
    let runs = vec![
        RunSpec { char_pr: 6, text: "a".to_string() },
        RunSpec { char_pr: 6, text: "b".to_string() },
        RunSpec { char_pr: 7, text: "c".to_string() },
        RunSpec { char_pr: 6, text: "d".to_string() },
        RunSpec { char_pr: 6, text: "e".to_string() },
    ];
    let merged = merge_adjacent_runs(runs);
    let view: Vec<(u32, String)> = merged.iter().map(|r| (r.char_pr, r.text.clone())).collect();
    assert_eq!(view, vec![(6, "ab".to_string()), (7, "c".to_string()), (6, "de".to_string())]);
}

#[test]
fn column_widths_fill_the_table() {
    assert_eq!(equal_widths(3), vec![13984, 13984, 13986]);
    assert_eq!(equal_widths(1), vec![41954]);
    assert!(equal_widths(0).is_empty());
    assert_eq!(equal_widths(7).iter().map(|w| *w as u64).sum::<u64>(), 41954);
}

#[test]
fn generates_an_hwpx_package_in_order() {
    let bytes = generate_hwpx("- a\n- bb", HwpxOptions::default(), parts()).unwrap();
    let archive = zip::ZipArchive::new(Cursor::new(bytes.clone())).unwrap();
    let names: Vec<String> = archive.file_names().map(|n| n.to_string()).collect();
    let mut ordered = Vec::new();
    let mut archive = zip::ZipArchive::new(Cursor::new(bytes.clone())).unwrap();
    for i in 0..archive.len() {
        ordered.push(archive.by_index(i).unwrap().name().to_string());
    }
    assert_eq!(names.len(), 11);
    assert_eq!(
        ordered,
        vec![
            "mimetype",
            "version.xml",
            "Contents/header.xml",
            "Contents/section0.xml",
            "Preview/PrvText.txt",
            "settings.xml",
            "Preview/PrvImage.png",
            "META-INF/container.rdf",
            "Contents/content.hpf",
            "META-INF/container.xml",
            "META-INF/manifest.xml",
        ]
    );
    assert_eq!(archive.by_index(0).unwrap().compression(), zip::CompressionMethod::Stored);
    assert_eq!(archive.by_index(1).unwrap().compression(), zip::CompressionMethod::Deflated);
    assert_eq!(read_entry(&bytes, "mimetype"), b"application/hwp+zip");
    assert_eq!(read_entry(&bytes, "Preview/PrvText.txt"), b"a\r\nbb");
    assert_eq!(
        String::from_utf8(read_entry(&bytes, "settings.xml")).unwrap(),
        "<ha:HWPApplicationSetting><ha:CaretPosition listIDRef=\"0\" paraIDRef=\"1\" pos=\"2\"/></ha:HWPApplicationSetting>"
    );
    assert_eq!(read_entry(&bytes, "Preview/PrvImage.png"), vec![1, 2, 3]);
    assert_eq!(read_entry(&bytes, "Contents/content.hpf"), b"<opf:package/>");
    let header = String::from_utf8(read_entry(&bytes, "Contents/header.xml")).unwrap();
    assert!(header.contains("<hh:bullets itemCnt=\"1\">"));
}

#[test]
fn reference_document_gets_its_own_preview_image() {
    let markdown = format!("{FIXTURE_FIRST}\n\n{FIXTURE_SECOND}");
    let bytes = generate_hwpx(&markdown, HwpxOptions::default(), parts()).unwrap();
    assert_eq!(read_entry(&bytes, "Preview/PrvImage.png"), vec![9, 9]);
}

#[test]
fn lenient_hwpx_nests_shallow_ordered_items() {
    let options = HwpxOptions { strict_mode: false, ..HwpxOptions::default() };
    let bytes = generate_hwpx("1. a\n  1. b", options, parts()).unwrap();
    let section = String::from_utf8(read_entry(&bytes, "Contents/section0.xml")).unwrap();
    assert!(section.contains("paraPrIDRef=\"20\""));
    assert!(section.contains("horzpos=\"2200\" horzsize=\"40320\""));
}

#[test]
fn strict_hwpx_rejects_ordered_lists_and_reports_it() {
    let err = generate_hwpx("1. a", HwpxOptions::default(), parts()).unwrap_err();
    assert!(matches!(err, CoreRsError::UnsupportedFeature(_)));
    let failure = generate_hwpx_with_report("1. a", HwpxOptions::default(), parts()).unwrap_err();
    assert_eq!(failure.error, err);
    assert!(failure.report.unsupported_count >= 1);
    assert!(failure.report.issues.iter().any(|i| i.severity == IssueSeverity::Error));
}

#[test]
fn invalid_style_options_are_refused() {
    let options = HwpxOptions {
        style: HwpxStyleOptions { body_font_size: Some(10), ..HwpxStyleOptions::default() },
        ..HwpxOptions::default()
    };
    let err = generate_hwpx("text", options, parts()).unwrap_err();
    assert!(matches!(err, CoreRsError::InvalidOption(_)));
}

#[test]
fn hwpx_with_report_returns_the_package() {
    let result = generate_hwpx_with_report("plain text", HwpxOptions::default(), parts()).unwrap();
    assert_eq!(read_entry(&result.bytes, "mimetype"), b"application/hwp+zip");
    assert_eq!(result.report.unsupported_count, 0);
}

#[test]
fn strict_section_agrees_with_lenient_section() {
    let document = parse("# T\n\n- a *b*\n  - c\n\n| x |\n|---|\n| [l](https://e.x) |", true);
    let strict = build_section_xml(&document, true, &default_style()).unwrap();
    let lenient = build_section_xml(&document, false, &default_style()).unwrap();
    assert_eq!(strict, lenient);
}

#[test]
fn normalizes_and_refuses_colors() {
    let options = HwpxOptions {
        style: HwpxStyleOptions {
            text_color: Some(" 1a2b3c ".to_string()),
            heading_color: Some("#abcdef".to_string()),
            ..HwpxStyleOptions::default()
        },
        ..HwpxOptions::default()
    };
    let style = ResolvedHwpxStyle::from_options(&options).unwrap();
    assert_eq!(style.text_color, "#1A2B3C");
    assert_eq!(style.heading_colors, ["#ABCDEF", "#ABCDEF", "#ABCDEF", "#ABCDEF"].map(String::from));
    assert_eq!(style.link_color, "#0563C1");
    assert!(!style.is_default());
    for bad in ["#12345", "#GGGGGG"] {
        let options = HwpxOptions {
            style: HwpxStyleOptions { text_color: Some(bad.to_string()), ..HwpxStyleOptions::default() },
            ..HwpxOptions::default()
        };
        assert!(matches!(ResolvedHwpxStyle::from_options(&options), Err(CoreRsError::InvalidOption(_))));
    }
}
