pub mod decode_hwpx;
pub mod fixture;
pub mod archive_fixture;
pub mod compare_hwpx_xml;
pub mod refresh_hwpx_fixture_metadata;
