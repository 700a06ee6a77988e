use std::collections::BTreeMap;
use std::io::Write;

use core_rs::parser::hwpx::load_hwpx_package;
use core_rs::CoreRsError;
use zip::write::SimpleFileOptions;
use zip::CompressionMethod;

fn build_hwpx_archive(entries: BTreeMap<String, Vec<u8>>) -> Vec<u8> {
    let mut bytes = Vec::new();
    let mut writer = zip::ZipWriter::new(std::io::Cursor::new(&mut bytes));
    let stored = SimpleFileOptions::default().compression_method(CompressionMethod::Stored);
    let deflated = SimpleFileOptions::default().compression_method(CompressionMethod::Deflated);
    for (path, contents) in entries {
        let options = if path == "mimetype" { stored } else { deflated };
        writer.start_file(path, options).unwrap();
        writer.write_all(&contents).unwrap();
    }
    writer.finish().unwrap();
    bytes
}

fn minimal_entries() -> BTreeMap<String, Vec<u8>> {
    BTreeMap::from([
        ("mimetype".to_string(), b"application/hwp+zip".to_vec()),
        ("Contents/content.hpf".to_string(), b"<opf:package/>".to_vec()),
        ("Contents/header.xml".to_string(), b"<hh:head/>".to_vec()),
        ("Contents/section0.xml".to_string(), b"<hs:sec/>".to_vec()),
    ])
}

#[test]
fn loads_the_three_required_parts() {
    let loaded = load_hwpx_package(&build_hwpx_archive(minimal_entries())).unwrap();
    assert_eq!(loaded.content_hpf, "<opf:package/>");
    assert_eq!(loaded.header_xml, "<hh:head/>");
    assert_eq!(loaded.section_xml, "<hs:sec/>");
}

#[test]
fn rejects_required_part_that_is_not_utf8() {
    let mut entries = minimal_entries();
    entries.insert("Contents/header.xml".to_string(), vec![0xff, 0xfe, b'<']);
    let error = load_hwpx_package(&build_hwpx_archive(entries)).unwrap_err();
    assert!(matches!(error, CoreRsError::InvalidHwpx(_)));
    assert!(error
        .detail()
        .starts_with("Contents/header.xml is not valid UTF-8 text: "));
}

#[test]
fn rejects_too_many_entries() {
    let mut entries = minimal_entries();
    for index in 0..70 {
        entries.insert(format!("BinData/extra{index}.bin"), vec![1, 2, 3]);
    }
    let error = load_hwpx_package(&build_hwpx_archive(entries)).unwrap_err();
    assert!(matches!(error, CoreRsError::InvalidHwpx(_)));
    assert_eq!(error.detail(), "HWPX archive contains too many entries: 74");
}
