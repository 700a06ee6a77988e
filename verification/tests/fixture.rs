use core_rs::generators::hwpx::style::paragraph_align_from_name;
use core_rs::tools::fixture::{comparison_excludes_for_fixture, fixture_is_deterministic, parse_u32, read_fixture_options};
use core_rs::HwpxParagraphAlign;

#[test]
fn reads_fixture_options_with_a_style_table() {
    let config = "# fixture\ntitle = \"Quarterly\"\nstrict_mode = false\nunknown = 1\n\n[style]\nbody_font = \"Arial\"\nbody_font_size = 1100\nparagraph_align = \"center\"\nlink_color = #0000FF\n[other]\ntitle = \"ignored?\"\n";
    let options = read_fixture_options(config).unwrap();
    assert_eq!(options.title.as_deref(), Some("ignored?"));
    assert!(!options.strict_mode);
    assert_eq!(options.author, None);
    assert_eq!(options.style.body_font.as_deref(), Some("Arial"));
    assert_eq!(options.style.body_font_size, Some(1100));
    assert_eq!(options.style.paragraph_align, Some(HwpxParagraphAlign::Center));
    assert_eq!(options.style.link_color.as_deref(), Some("#0000FF"));
    assert_eq!(options.style.heading_font, None);
}

#[test]
fn empty_fixture_settings_give_the_defaults() {
    let options = read_fixture_options("").unwrap();
    assert_eq!(options.title, None);
    assert!(options.strict_mode);
    assert_eq!(options.style.body_font_size, None);
}

#[test]
fn unreadable_fixture_values_are_errors() {
    assert_eq!(read_fixture_options("strict_mode = yes").unwrap_err(), "provided string was not `true` or `false`");
    assert_eq!(read_fixture_options("[style]\nbody_font_size = 12a").unwrap_err(), "invalid digit found in string");
    assert_eq!(
        read_fixture_options("[style]\nheading_font_size = 99999999999").unwrap_err(),
        "number too large to fit in target type"
    );
    assert_eq!(read_fixture_options("[style]\nparagraph_align = \"middle\"").unwrap_err(), "unsupported paragraph_align: middle");
}

#[test]
fn numbers_read_as_str_parse_reads_them() {
    assert_eq!(parse_u32("+42"), Ok(42));
    assert_eq!(parse_u32("4294967295"), Ok(4294967295));
    assert_eq!(parse_u32(""), Err("cannot parse integer from empty string".to_string()));
    assert_eq!(parse_u32("+"), Err("invalid digit found in string".to_string()));
    assert_eq!(parse_u32("-1"), Err("invalid digit found in string".to_string()));
    assert_eq!(parse_u32("4294967296"), Err("number too large to fit in target type".to_string()));
}

#[test]
fn determinism_is_off_only_when_the_settings_say_so() {
    assert!(fixture_is_deterministic("title = \"x\""));
    assert!(!fixture_is_deterministic("a = 1\n  determinism = false  \n"));
    assert!(fixture_is_deterministic("determinism = true"));
}

#[test]
fn comparison_excludes_add_nondeterministic_entries_once() {
    let config = "determinism = false\ncomparison_excludes = [\"version.xml\", \"settings.xml\", \"\"\"quoted\"\"\"]";
    assert_eq!(
        comparison_excludes_for_fixture(config).unwrap(),
        vec!["Contents/content.hpf", "Preview/PrvImage.png", "version.xml", "settings.xml", "quoted"]
    );
    assert_eq!(comparison_excludes_for_fixture("comparison_excludes = [ ]").unwrap(), Vec::<String>::new());
    assert_eq!(comparison_excludes_for_fixture("x = 1").unwrap(), Vec::<String>::new());
    assert_eq!(
        comparison_excludes_for_fixture("comparison_excludes = [\"a\"").unwrap_err(),
        "invalid comparison_excludes syntax"
    );
}

#[test]
fn alignment_names_are_read_in_any_case() {
    assert_eq!(paragraph_align_from_name("CENTER"), Ok(HwpxParagraphAlign::Center));
    assert_eq!(paragraph_align_from_name("Justify"), Ok(HwpxParagraphAlign::Justify));
    assert_eq!(paragraph_align_from_name("Middle"), Err("invalid HWPX paragraph alignment: middle".to_string()));
}
