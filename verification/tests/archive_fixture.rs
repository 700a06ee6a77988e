use std::io::Write;

use core_rs::tools::archive_fixture::{
    archive_entries, archive_entry_names, filtered_normalized_entries, hash_entries, normalize_content, normalized_archives_equivalent,
    normalized_entries, NormalizedEntry,
};
use core_rs::tools::compare_hwpx_xml::{is_text_entry, report_lines, summarize_text_difference};
use core_rs::tools::refresh_hwpx_fixture_metadata::{comparison_line, output_path};
use core_rs::tools::archive_fixture::BinaryRepresentation;
use core_rs::error::ErrorKind;
use core_rs::utils::zip_archiver::{zip_entries_in_order, ArchiveEntry};
use zip::write::SimpleFileOptions;

fn archive(entries: &[(&str, &[u8])]) -> Vec<u8> {
    let mut bytes = Vec::new();
    let mut writer = zip::ZipWriter::new(std::io::Cursor::new(&mut bytes));
    for (path, contents) in entries {
        writer.start_file(*path, SimpleFileOptions::default()).unwrap();
        writer.write_all(contents).unwrap();
    }
    writer.finish().unwrap();
    bytes
}

fn text(path: &str, value: &str) -> (String, NormalizedEntry) {
    (path.to_string(), NormalizedEntry::Text(value.to_string()))
}

#[test]
fn normalizes_line_endings_and_trailing_whitespace() {
    assert_eq!(normalize_content("a  \r\nb\t\n\n  "), "a\nb");
    assert_eq!(normalize_content("  x\r\n  y  "), "x\n  y");
    assert_eq!(normalize_content(""), "");
}

#[test]
fn lists_entries_by_path_with_text_normalized_and_binary_hashed() {
    let bytes = archive(&[
        ("mimetype", b"application/hwp+zip"),
        ("Preview/PrvImage.png", &[1, 2, 3]),
        ("Contents/section0.xml", b"<a/>  \r\n<b/>\r\n"),
    ]);
    let entries = normalized_entries(&bytes, is_text_entry).unwrap();
    assert_eq!(
        entries,
        vec![
            text("Contents/section0.xml", "<a/>\n<b/>"),
            (
                "Preview/PrvImage.png".to_string(),
                NormalizedEntry::BinaryHash(
                    "039058c6f2c0cb492c533b0a4d14ef77cc0f78abccced5287d84a1a2011cfb81".to_string()
                )
            ),
            text("mimetype", "application/hwp+zip"),
        ]
    );
}

#[test]
fn excluded_paths_are_left_out() {
    let bytes = archive(&[("a.xml", b"x"), ("b.xml", b"y"), ("c.xml", b"z")]);
    let excluded = vec!["b.xml".to_string(), "missing.xml".to_string()];
    let entries = filtered_normalized_entries(&bytes, is_text_entry, &excluded).unwrap();
    assert_eq!(entries, vec![text("a.xml", "x"), text("c.xml", "z")]);
}

#[test]
fn text_entry_that_is_not_utf8_is_an_error() {
    let bytes = archive(&[("a.xml", &[0xff, 0xfe])]);
    assert!(normalized_entries(&bytes, is_text_entry).is_err());
}

#[test]
fn bytes_that_are_no_archive_are_an_error() {
    assert!(normalized_entries(b"not a zip", is_text_entry).is_err());
    assert!(normalized_archives_equivalent(b"not a zip", b"not a zip", is_text_entry).is_err());
}

#[test]
fn archives_differing_only_in_whitespace_are_equivalent() {
    let left = archive(&[("a.xml", b"<a/>\r\n"), ("b.bin", &[9])]);
    let right = archive(&[("b.bin", &[9]), ("a.xml", b"  <a/>  ")]);
    assert!(normalized_archives_equivalent(&left, &right, is_text_entry).unwrap());
    let other = archive(&[("a.xml", b"<b/>"), ("b.bin", &[9])]);
    assert!(!normalized_archives_equivalent(&left, &other, is_text_entry).unwrap());
}

#[test]
fn hashes_a_listing() {
    let entries = vec![
        text("a.txt", "hi"),
        ("b.png".to_string(), NormalizedEntry::BinaryHash("abc".to_string())),
    ];
    assert_eq!(hash_entries(&entries), "c966ff39aa28de9fbb288b240424397744e5c574c8bcd0744a19d4eba1a46c41");
    assert_eq!(hash_entries(&Vec::new()), "e3b0c44298fc1c149afbf4c8996fb92427ae41e4649b934ca495991b7852b855");
}

#[test]
fn summarizes_where_texts_first_differ() {
    assert_eq!(
        summarize_text_difference("a\nb\nc", "a\nx\nc"),
        "first_diff_line=2 left_lines=3 right_lines=3 left_preview=\"b\" right_preview=\"x\""
    );
    assert_eq!(
        summarize_text_difference("a", "a\nb"),
        "first_diff_line=2 left_lines=1 right_lines=2 left_preview=\"<missing>\" right_preview=\"b\""
    );
}

#[test]
fn reports_missing_and_differing_entries() {
    let left = vec![text("a.xml", "x"), text("b.xml", "1\n2"), text("d.xml", "same")];
    let right = vec![
        ("b.xml".to_string(), NormalizedEntry::Text("1\n3".to_string())),
        ("c.bin".to_string(), NormalizedEntry::BinaryHash("h".to_string())),
        text("d.xml", "same"),
    ];
    assert_eq!(
        report_lines("left.hwpx", &left, "right.hwpx", &right),
        vec![
            "left: left.hwpx",
            "right: right.hwpx",
            "missing_in_left:",
            "  - c.bin",
            "missing_in_right:",
            "  - a.xml",
            "differing_entries:",
            "  - b.xml",
            "    kind: text",
            "    first_diff_line=2 left_lines=2 right_lines=2 left_preview=\"2\" right_preview=\"3\"",
            "status: different",
        ]
    );
    assert_eq!(
        report_lines("l", &left, "r", &left),
        vec!["left: l", "right: r", "status: equivalent"]
    );
}

#[test]
fn reports_kinds_of_entries_that_differ() {
    let left = vec![text("a", "héllo")];
    let right = vec![("a".to_string(), NormalizedEntry::BinaryHash("ff".to_string()))];
    assert_eq!(
        report_lines("l", &left, "r", &right),
        vec![
            "left: l",
            "right: r",
            "differing_entries:",
            "  - a",
            "    left:  text(len=6)",
            "    right: binary(sha256=ff)",
            "status: different",
        ]
    );
}

#[test]
fn places_expected_entries_and_reports_comparisons() {
    assert_eq!(output_path("Contents/header.xml", false, None), "Contents/header.xml");
    assert_eq!(output_path("Preview/PrvImage.png", true, None), "Preview/PrvImage.png.sha256");
    assert_eq!(output_path("Preview/PrvImage.png", true, Some(BinaryRepresentation::Raw)), "Preview/PrvImage.png");
    assert_eq!(
        output_path("Preview/PrvImage.png", true, Some(BinaryRepresentation::Sha256Sidecar)),
        "Preview/PrvImage.png.sha256"
    );
    assert_eq!(comparison_line("g.hwpx", "golden.hwpx", true), "   compare: ✅ g.hwpx equivalent golden.hwpx");
    assert_eq!(comparison_line("g.hwpx", "golden.hwpx", false), "   compare: ❌ g.hwpx different golden.hwpx");
}

#[test]
fn reads_entries_with_their_bytes_in_archive_order() {
    let bytes = archive(&[("b.xml", b"<b/>"), ("a.png", &[7, 8])]);
    let entries = archive_entries(&bytes, is_text_entry).unwrap();
    assert_eq!(
        entries,
        vec![
            ("b.xml".to_string(), b"<b/>".to_vec(), true),
            ("a.png".to_string(), vec![7, 8], false),
        ]
    );
    assert_eq!(archive_entry_names(&bytes).unwrap(), vec!["b.xml".to_string(), "a.png".to_string()]);
    assert!(archive_entries(b"short", is_text_entry).is_err());
    assert!(archive_entry_names(b"short").is_err());
}

#[test]
fn packing_refuses_a_repeated_path() {
    let entries = vec![
        ArchiveEntry::new_text("a.txt", "one".to_string()),
        ArchiveEntry::new_text("a.txt", "two".to_string()),
    ];
    let error = zip_entries_in_order(&entries).unwrap_err();
    assert_eq!(error.kind(), ErrorKind::Zip);
    let entries = vec![ArchiveEntry::new_text("a.txt", "one".to_string())];
    assert!(zip_entries_in_order(&entries).is_ok());
}
