use std::io::{Cursor, Read};

use core_rs::generators::hwpx::compat::{
    build_compat_preview_text, build_compat_section_xml, collect_paragraphs, CompatParagraphKind,
    CompatSectionTemplates,
};
use core_rs::generators::hwpx::generator::ProfileHeaderTemplates;
use core_rs::generators::hwpx::profile::{resolve_compatibility_profile, CompatibilityProfile};
use core_rs::generators::hwpx::section::CaretPosition;
use core_rs::generators::hwpx::style::ResolvedHwpxStyle;
use core_rs::models::block::Block;
use core_rs::models::document::Document;
use core_rs::models::inline::{ImageData, Inline};
use core_rs::parser::markdown::MarkdownParser;
use core_rs::{generate_hwpx, CoreRsError, HwpxOptions, HwpxPackageParts, HwpxParagraphAlign, HwpxStyleOptions};

const PARTICLE_NEUN: &str = "\u{B294}";
const BREAK_WORD_LINE: &str = " \u{CCAB} \u{C904}\u{BC14}\u{AFC8}";

fn parse(markdown: &str) -> Document {
    MarkdownParser::new(true).parse(markdown).unwrap()
}

fn style_with(align: Option<HwpxParagraphAlign>) -> ResolvedHwpxStyle {
    let options = HwpxOptions {
        style: HwpxStyleOptions { paragraph_align: align, ..HwpxStyleOptions::default() },
        ..HwpxOptions::default()
    };
    ResolvedHwpxStyle::from_options(&options).unwrap()
}

fn templates() -> CompatSectionTemplates {
    CompatSectionTemplates {
        core_paragraph_section: "<hs:sec id=\"core-paragraph\"/>".to_string(),
        core_paragraph_preview: "core paragraph preview".to_string(),
        style_brand_color_section: "<hs:sec id=\"style-brand-color\"/>".to_string(),
        style_brand_color_preview: "brand preview".to_string(),
    }
}

fn parts() -> HwpxPackageParts {
    HwpxPackageParts {
        header_template: "<hh:head><hh:charProperties itemCnt=\"7\"></hh:charProperties></hh:head>".to_string(),
        settings_template: "<ha:CaretPosition listIDRef=\"0\" paraIDRef=\"0\" pos=\"45\"/>".to_string(),
        version_xml: "<hv:HCFVersion/>".to_string(),
        container_xml: "<ocf:container/>".to_string(),
        container_rdf_xml: "<rdf:RDF/>".to_string(),
        manifest_xml: "<odf:manifest/>".to_string(),
        content_hpf: "<opf:package/>".to_string(),
        preview_image: vec![1, 2, 3],
        core_paragraph_preview_image: vec![9, 9],
        profile_headers: ProfileHeaderTemplates {
            core_paragraph: "<hh:head id=\"core-paragraph\"/>".to_string(),
            core_inline_style: "<hh:head id=\"core-inline-style\"/>".to_string(),
            core_link_text: "<hh:head id=\"core-link-text\"/>".to_string(),
            core_mixed: "<hh:head id=\"core-mixed\"/>".to_string(),
            style_brand_color: "<hh:head id=\"style-brand-color\"/>".to_string(),
            style_centered_layout: "<hh:head id=\"style-centered-layout\"/>".to_string(),
            style_typography: "<hh:head id=\"style-typography\"/>".to_string(),
        },
        compat_sections: templates(),
    }
}

fn read_entry(bytes: &[u8], name: &str) -> String {
    let mut archive = zip::ZipArchive::new(Cursor::new(bytes.to_vec())).unwrap();
    let mut file = archive.by_name(name).unwrap();
    let mut data = String::new();
    file.read_to_string(&mut data).unwrap();
    data
}

fn section(document: &Document, profile: CompatibilityProfile, style: &ResolvedHwpxStyle) -> String {
    build_compat_section_xml(document, profile, style, &templates()).unwrap()
}

fn preview(document: &Document, profile: CompatibilityProfile, style: &ResolvedHwpxStyle) -> (String, CaretPosition) {
    let mut caret = CaretPosition { para_id_ref: 7, pos: 7 };
    let text = build_compat_preview_text(document, profile, style, &templates(), &mut caret).unwrap();
    (text, caret)
}

#[test]
fn core_paragraph_layout_renders_one_paragraph() {
    let document = parse("Hello");
    let style = style_with(None);
    assert_eq!(resolve_compatibility_profile(&document, &style), CompatibilityProfile::CoreParagraph);
    let xml = section(&document, CompatibilityProfile::CoreParagraph, &style);
    assert!(xml.starts_with("<?xml version=\"1.0\" encoding=\"UTF-8\" standalone=\"yes\" ?><hs:sec "));
    assert!(xml.contains(
        "<hp:p id=\"2757524817\" paraPrIDRef=\"0\" styleIDRef=\"0\" pageBreak=\"0\" columnBreak=\"0\" merged=\"0\"><hp:run charPrIDRef=\"5\"><hp:secPr "
    ));
    assert!(xml.ends_with(
        "<hp:run charPrIDRef=\"5\"><hp:t>Hello</hp:t></hp:run><hp:linesegarray><hp:lineseg textpos=\"0\" vertpos=\"0\" vertsize=\"1000\" textheight=\"1000\" baseline=\"850\" spacing=\"600\" horzpos=\"0\" horzsize=\"42520\" flags=\"393216\"/></hp:linesegarray></hp:p></hs:sec>"
    ));
    let (text, caret) = preview(&document, CompatibilityProfile::CoreParagraph, &style);
    assert_eq!(text, "Hello");
    assert_eq!(caret, CaretPosition { para_id_ref: 0, pos: 45 });
}

#[test]
fn inline_style_layout_merges_runs_and_highlights_code() {
    let document = parse("**bold** and *it* `code`");
    let style = style_with(None);
    assert_eq!(resolve_compatibility_profile(&document, &style), CompatibilityProfile::CoreInlineStyle);
    let xml = section(&document, CompatibilityProfile::CoreInlineStyle, &style);
    assert!(xml.contains(
        "<hp:run charPrIDRef=\"6\"><hp:t>bold</hp:t></hp:run><hp:run charPrIDRef=\"5\"><hp:t> and </hp:t></hp:run><hp:run charPrIDRef=\"7\"><hp:t>it</hp:t></hp:run><hp:run charPrIDRef=\"5\"><hp:t> <hp:markpenBegin color=\"#F2F2F2\"/>code<hp:markpenEnd/></hp:t></hp:run>"
    ));
    assert!(xml.contains(
        "<hp:lineseg textpos=\"29\" vertpos=\"1600\" vertsize=\"1000\" textheight=\"1000\" baseline=\"850\" spacing=\"600\" horzpos=\"0\" horzsize=\"42520\" flags=\"393216\"/></hp:linesegarray>"
    ));
    let (text, caret) = preview(&document, CompatibilityProfile::CoreInlineStyle, &style);
    assert_eq!(text, "bold and it code");
    assert_eq!(caret, CaretPosition { para_id_ref: 0, pos: 28 });
}

#[test]
fn inline_style_layout_drops_the_break_word_before_a_hard_break() {
    let markdown = format!("**x**{BREAK_WORD_LINE}  \nnext");
    let document = parse(&markdown);
    let style = style_with(None);
    let xml = section(&document, CompatibilityProfile::CoreInlineStyle, &style);
    assert!(xml.contains("<hp:run charPrIDRef=\"5\"><hp:t> \u{CCAB}<hp:lineBreak/>next</hp:t></hp:run>"));
}

#[test]
fn link_layout_renders_a_hyperlink_field_and_a_closing_paragraph() {
    let document = parse("[docs](https://example.com)");
    let style = style_with(None);
    assert_eq!(resolve_compatibility_profile(&document, &style), CompatibilityProfile::CoreLinkText);
    let xml = section(&document, CompatibilityProfile::CoreLinkText, &style);
    assert!(xml.contains("<hp:p id=\"2757524817\" paraPrIDRef=\"19\" styleIDRef=\"0\""));
    assert!(xml.contains(
        "<hp:run charPrIDRef=\"6\"><hp:ctrl><hp:fieldBegin id=\"2107483186\" type=\"HYPERLINK\" name=\"\" editable=\"0\" dirty=\"1\" zorder=\"-1\" fieldid=\"627600491\"><hp:parameters cnt=\"6\" name=\"\"><hp:integerParam name=\"Prop\">0</hp:integerParam><hp:stringParam name=\"Command\">https\\://example.com/;1;0;0;</hp:stringParam><hp:stringParam name=\"Path\">https://example.com/</hp:stringParam>"
    ));
    assert!(xml.contains(
        "<hp:t>docs</hp:t><hp:ctrl><hp:fieldEnd beginIDRef=\"2107483186\" fieldid=\"627600491\"/></hp:ctrl><hp:t/></hp:run>"
    ));
    assert!(xml.contains(
        "<hp:p id=\"2147483648\" paraPrIDRef=\"0\" styleIDRef=\"0\" pageBreak=\"0\" columnBreak=\"0\" merged=\"0\"><hp:run charPrIDRef=\"7\"/><hp:linesegarray><hp:lineseg textpos=\"0\" vertpos=\"2400\""
    ));
    let (text, caret) = preview(&document, CompatibilityProfile::CoreLinkText, &style);
    assert_eq!(text, "docs");
    assert_eq!(caret, CaretPosition { para_id_ref: 1, pos: 0 });
}

#[test]
fn mixed_layout_attaches_particles_after_styled_text() {
    let markdown = format!("# T\n\n**B** {PARTICLE_NEUN} x\n\nend");
    let document = parse(&markdown);
    let style = style_with(None);
    assert_eq!(resolve_compatibility_profile(&document, &style), CompatibilityProfile::CoreMixed);
    let xml = section(&document, CompatibilityProfile::CoreMixed, &style);
    assert!(xml.contains(
        "<hp:lineseg textpos=\"0\" vertpos=\"0\" vertsize=\"1400\" textheight=\"1400\" baseline=\"1190\" spacing=\"840\" horzpos=\"1000\" horzsize=\"41520\" flags=\"2490368\"/>"
    ));
    assert!(xml.contains(&format!(
        "<hp:run charPrIDRef=\"7\"><hp:t>B</hp:t></hp:run><hp:run charPrIDRef=\"5\"><hp:t>{PARTICLE_NEUN} x</hp:t></hp:run><hp:linesegarray><hp:lineseg textpos=\"0\" vertpos=\"2240\""
    )));
    let (text, caret) = preview(&document, CompatibilityProfile::CoreMixed, &style);
    assert_eq!(text, format!("T\nB{PARTICLE_NEUN} x\nend"));
    assert_eq!(caret, CaretPosition { para_id_ref: 2, pos: 3 });
}

#[test]
fn centered_layout_closes_with_an_empty_paragraph() {
    let document = parse("# T\n\nA\n\nB");
    let style = style_with(Some(HwpxParagraphAlign::Center));
    assert_eq!(resolve_compatibility_profile(&document, &style), CompatibilityProfile::StyleCenteredLayout);
    let paragraphs = collect_paragraphs(&document, CompatibilityProfile::StyleCenteredLayout, &style).unwrap();
    assert_eq!(paragraphs.len(), 4);
    assert_eq!(paragraphs[3].kind, CompatParagraphKind::TerminalEmpty);
    assert_eq!(paragraphs[1].metric.spacing, 600);
    let (text, caret) = preview(&document, CompatibilityProfile::StyleCenteredLayout, &style);
    assert_eq!(text, "T\nA\nB");
    assert_eq!(caret, CaretPosition { para_id_ref: 3, pos: 0 });
}

#[test]
fn typography_layout_uses_the_target_of_a_blank_link() {
    let document = parse("# T\n\nbody\n\n[ ](https://a.b)");
    let style = style_with(Some(HwpxParagraphAlign::Justify));
    assert_eq!(resolve_compatibility_profile(&document, &style), CompatibilityProfile::StyleTypography);
    let (text, caret) = preview(&document, CompatibilityProfile::StyleTypography, &style);
    assert_eq!(text, "T\nbody\nhttps://a.b/");
    assert_eq!(caret, CaretPosition { para_id_ref: 1, pos: 4 });
    let xml = section(&document, CompatibilityProfile::StyleTypography, &style);
    assert!(xml.contains("<hp:fieldBegin id=\"2107501120\""));
    assert!(xml.contains("spacing=\"224\""));
}

#[test]
fn fixed_profiles_take_their_reference_texts() {
    let document = parse("Hello");
    let style = style_with(None);
    assert_eq!(
        section(&document, CompatibilityProfile::CoreParagraphFixture, &style),
        "<hs:sec id=\"core-paragraph\"/>"
    );
    let (text, caret) = preview(&document, CompatibilityProfile::StyleBrandColor, &style);
    assert_eq!(text, "brand preview");
    assert_eq!(caret, CaretPosition { para_id_ref: 2, pos: 0 });
}

#[test]
fn compat_layouts_refuse_other_shapes_and_images() {
    let style = style_with(None);
    let two = parse("a\n\nb");
    let error = build_compat_section_xml(&two, CompatibilityProfile::CoreParagraph, &style, &templates()).unwrap_err();
    assert_eq!(error, CoreRsError::UnsupportedFeature("unexpected CoreParagraph shape".to_string()));
    let error = build_compat_section_xml(&two, CompatibilityProfile::LegacyDefault, &style, &templates()).unwrap_err();
    assert_eq!(
        error,
        CoreRsError::UnsupportedFeature("legacy profile must use the default section renderer".to_string())
    );
    let image = Document {
        blocks: vec![Block::Paragraph(vec![Inline::Image(ImageData {
            alt: "a".to_string(),
            title: None,
            mime_type: "image/png".to_string(),
            extension: "png".to_string(),
            data: vec![1],
        })])],
    };
    let mut caret = CaretPosition { para_id_ref: 7, pos: 7 };
    let error =
        build_compat_preview_text(&image, CompatibilityProfile::CoreParagraph, &style, &templates(), &mut caret).unwrap_err();
    assert_eq!(error, CoreRsError::UnsupportedFeature("images are not supported in compat path".to_string()));
    assert_eq!(caret, CaretPosition { para_id_ref: 7, pos: 7 });
}

#[test]
fn generated_package_uses_the_profile_header_and_layout() {
    let bytes = generate_hwpx("Hello", HwpxOptions::default(), parts()).unwrap();
    assert_eq!(read_entry(&bytes, "Contents/header.xml"), "<hh:head id=\"core-paragraph\"/>");
    assert!(read_entry(&bytes, "Contents/section0.xml").contains("<hp:run charPrIDRef=\"5\"><hp:t>Hello</hp:t></hp:run>"));
    assert_eq!(read_entry(&bytes, "Preview/PrvText.txt"), "Hello");
    assert!(read_entry(&bytes, "settings.xml").contains("paraIDRef=\"0\" pos=\"45\""));
}

#[test]
fn generated_link_package_moves_the_caret_to_the_closing_paragraph() {
    let bytes = generate_hwpx("[docs](https://example.com)", HwpxOptions::default(), parts()).unwrap();
    assert_eq!(read_entry(&bytes, "Contents/header.xml"), "<hh:head id=\"core-link-text\"/>");
    assert!(read_entry(&bytes, "settings.xml").contains("paraIDRef=\"1\" pos=\"0\""));
}
