pub mod collect;
pub mod items;
pub mod runs;
pub mod style;
pub mod section;
pub mod package;
pub mod header;
pub mod normalize;
pub mod profile;
pub mod compat;
pub mod generator;
