pub mod docx;
pub mod hwpx;
