use core_rs::tools::decode_hwpx::{
    detect_format, is_console_text, is_xml_like, normalize_newlines, parse_args, resolve_output_path,
    to_hex, trim_to_utf8_boundary, truncate_for_console, usage, CliOptions, FileFormat,
    MAX_CONSOLE_TEXT_BYTES,
};

#[test]
fn parses_help_flag_without_error() {
    assert_eq!(parse_args(vec!["--help".to_string()]).unwrap(), None);
    assert_eq!(parse_args(vec!["-h".to_string()]).unwrap(), None);
}

#[test]
fn parses_options_before_and_after_input_path() {
    let options = parse_args(vec![
        "--parse".to_string(),
        "sample.hwpx".to_string(),
        "--out".to_string(),
        "/tmp/out".to_string(),
    ])
    .unwrap()
    .unwrap();

    assert_eq!(
        options,
        CliOptions {
            input_path: "sample.hwpx".to_string(),
            output_dir: Some("/tmp/out".to_string()),
            parse_semantics: true,
        }
    );
}

#[test]
fn rejects_multiple_input_paths() {
    let error = parse_args(vec!["a.hwpx".to_string(), "b.hwpx".to_string()]).unwrap_err();
    assert!(error.contains("multiple input paths"));
}

#[test]
fn rejects_unsafe_output_paths() {
    let error = resolve_output_path("/tmp/out", "../evil.xml").unwrap_err();
    assert!(error.contains("unsafe archive entry path"));

    let error = resolve_output_path("/tmp/out", "/etc/passwd").unwrap_err();
    assert!(error.contains("unsafe archive entry path"));
}

#[test]
fn trims_truncated_bytes_to_a_utf8_boundary() {
    let mut bytes = "한글".as_bytes()[..5].to_vec();
    trim_to_utf8_boundary(&mut bytes);
    assert_eq!(std::str::from_utf8(&bytes).unwrap(), "한");
}

#[test]
fn missing_input_path_reports_usage() {
    assert_eq!(parse_args(vec![]).unwrap_err(), usage());
    assert_eq!(parse_args(vec!["--parse".to_string()]).unwrap_err(), usage());
}

#[test]
fn out_flag_requires_a_value() {
    assert_eq!(
        parse_args(vec!["a.hwpx".to_string(), "--out".to_string()]).unwrap_err(),
        "--out requires a directory path"
    );
}

#[test]
fn rejects_unknown_flags() {
    let error = parse_args(vec!["--verbose".to_string()]).unwrap_err();
    assert!(error.starts_with("unknown argument: --verbose\n\nusage:"));
}

#[test]
fn reads_arguments_in_order() {
    assert_eq!(
        parse_args(vec!["a.hwpx".to_string(), "b.hwpx".to_string(), "--help".to_string()])
            .unwrap_err()
            .contains("multiple input paths"),
        true
    );
    assert_eq!(parse_args(vec!["--help".to_string(), "a".to_string(), "b".to_string()]).unwrap(), None);
}

#[test]
fn resolves_safe_entry_paths() {
    assert_eq!(resolve_output_path("/tmp/out", "Contents/section0.xml").unwrap(), "/tmp/out/Contents/section0.xml");
    assert_eq!(resolve_output_path("/tmp/out/", "./a//b/./c").unwrap(), "/tmp/out/a/b/c");
    assert_eq!(resolve_output_path("", "mimetype").unwrap(), "mimetype");
    assert!(resolve_output_path("/tmp/out", "./").unwrap_err().contains("empty resolved path"));
    assert!(resolve_output_path("/tmp/out", "a/../b").unwrap_err().contains("unsafe archive entry path"));
}

#[test]
fn renders_bytes_as_hex() {
    assert_eq!(to_hex(&vec![0xD0, 0xCF, 0x11, 0x0A]), "D0 CF 11 0A");
    assert_eq!(to_hex(&vec![]), "");
}

#[test]
fn detects_formats_from_magic_bytes() {
    assert_eq!(detect_format(&vec![0x50, 0x4B, 0x03]), FileFormat::TooSmall);
    assert_eq!(detect_format(&vec![0x50, 0x4B, 0x03, 0x04, 0, 0, 0, 0]), FileFormat::Zip);
    assert_eq!(detect_format(&vec![0xD0, 0xCF, 0x11, 0xE0, 0xA1, 0xB1, 0x1A, 0xE1]), FileFormat::Ole);
    assert_eq!(detect_format(&vec![0xD0, 0xCF, 0x11, 0xE0, 0xA1]), FileFormat::Unknown);
    assert_eq!(detect_format(&vec![1, 2, 3, 4]), FileFormat::Unknown);
}

#[test]
fn classifies_console_entries() {
    assert!(is_xml_like("Contents/header.xml"));
    assert!(is_xml_like("Contents/content.hpf"));
    assert!(is_xml_like("META-INF/container.rdf"));
    assert!(!is_xml_like("Preview/PrvImage.png"));
    assert!(is_console_text("Preview/PrvText.txt"));
    assert!(is_console_text("mimetype"));
    assert!(!is_console_text("BinData/image1.png"));
}

#[test]
fn truncates_console_text_on_a_character_boundary() {
    let mut bytes = vec![b'a'; MAX_CONSOLE_TEXT_BYTES - 1];
    bytes.extend_from_slice("한".as_bytes());
    let truncated = truncate_for_console(&mut bytes);
    assert!(truncated);
    assert_eq!(bytes.len(), MAX_CONSOLE_TEXT_BYTES - 1);

    let mut short = b"abc".to_vec();
    assert!(!truncate_for_console(&mut short));
    assert_eq!(short, b"abc".to_vec());
}

#[test]
fn normalizes_crlf_line_endings() {
    assert_eq!(normalize_newlines("a\r\nb\rc\n\r\n"), "a\nb\rc\n\n");
}
