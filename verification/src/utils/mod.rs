pub mod image_helper;
pub mod text;
pub mod xml_helper;
pub mod zip_archiver;
pub mod xml_reader;
pub mod zip_reader;
