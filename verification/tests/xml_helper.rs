use core_rs::utils::xml_helper::{escape_attr, escape_text};

#[test]
fn replaces_invalid_xml_characters() {
    assert_eq!(escape_text("a\u{0000}b\u{000B}c"), "a\u{FFFD}b\u{FFFD}c");
    assert_eq!(escape_attr("x\u{001F}\"'"), "x\u{FFFD}&quot;&apos;");
}

#[test]
fn escapes_markup_characters_in_text() {
    assert_eq!(escape_text("a < b & c > d"), "a &lt; b &amp; c &gt; d");
    assert_eq!(escape_text("\"quoted\" 'single'"), "\"quoted\" 'single'");
}

#[test]
fn escapes_quotes_in_attributes() {
    assert_eq!(escape_attr("<\"&'>"), "&lt;&quot;&amp;&apos;&gt;");
    assert_eq!(escape_attr(""), "");
}

#[test]
fn keeps_tabs_newlines_and_astral_characters() {
    assert_eq!(escape_text("\t\n\r\u{1F600}"), "\t\n\r\u{1F600}");
    assert_eq!(escape_text("\u{FFFE}"), "\u{FFFD}");
}
