pub mod markdown;
pub mod hwpx;
