//! Reading HWPX packages back into documents: the package's three parts, its
//! metadata, the registry of its header and the blocks of its section.
pub mod dump;
pub mod inline;
pub mod metadata;
pub mod package;
pub mod registry;
pub mod section;
pub mod table;

pub use package::{LoadedHwpx, load_hwpx_package};

use vstd::prelude::*;
use crate::error::CoreRsError;
use crate::models::block::BlockV;
use crate::models::document::Document;
use metadata::{MetadataV, RawHwpxMetadata, parse_metadata, spec_parse_metadata};
use package::{LoadErrorV, error_fits, spec_load};
use registry::{parse_registry, spec_parse_registry};
use section::{parse_section, spec_parse_section};

verus! {

/// A package read back: its document and its metadata.
#[derive(Debug)]
pub struct ParsedHwpx {
    pub document: Document,
    pub metadata: RawHwpxMetadata,
}

/// The document and metadata of a package whose parts were read: the metadata of
/// the content part, then the registry of the header, then the blocks of the
/// section, the first failure being the error.
pub open spec fn spec_parse_parts(content_hpf: Seq<char>, header_xml: Seq<char>, section_xml: Seq<char>) -> Result<(Seq<BlockV>, MetadataV), crate::error::ErrorV> {
    match spec_parse_metadata(content_hpf) {
        Err(e) => Err(e),
        Ok(m) => match spec_parse_registry(header_xml) {
            Err(e) => Err(e),
            Ok(reg) => match spec_parse_section(section_xml, reg) {
                Err(e) => Err(e),
                Ok(blocks) => Ok((blocks, m)),
            },
        },
    }
}

/// What reading a package gives: what loading its parts (a failed read of the
/// archive among its errors) and then parsing them gives.
pub open spec fn parse_hwpx_holds(bytes: Seq<u8>, r: Result<ParsedHwpx, CoreRsError>) -> bool {
    match spec_load(bytes) {
        Err(le) => r matches Err(x) && error_fits(le, x@),
        Ok(p) => match spec_parse_parts(p.content_hpf, p.header_xml, p.section_xml) {
            Err(e) => r matches Err(x) && x@ == e,
            Ok(d) => r matches Ok(y) && y.document@ == d.0 && y.metadata@ == d.1,
        },
    }
}

/// What dumping a package's parse gives: the error of loading (a failed read of
/// the archive among them) or parsing it, or the dump of what was parsed.
pub open spec fn dump_holds(bytes: Seq<u8>, r: Result<String, CoreRsError>) -> bool {
    match spec_load(bytes) {
        Err(le) => r matches Err(x) && error_fits(le, x@),
        Ok(p) => match spec_parse_parts(p.content_hpf, p.header_xml, p.section_xml) {
            Err(e) => r matches Err(x) && x@ == e,
            Ok(d) => r matches Ok(s) && s@ == dump::spec_dump(d.0, d.1),
        },
    }
}

/// Reads an HWPX package back into a document and its metadata.
pub fn parse_hwpx(bytes: &[u8]) -> (r: Result<ParsedHwpx, CoreRsError>)
    ensures
        parse_hwpx_holds(bytes@, r),
        bytes@.len() < 22 ==> (r matches Err(e) && error_fits(LoadErrorV::NotOpened, e@)),
{
    let package = load_hwpx_package(bytes)?;
    let metadata = parse_metadata(package.content_hpf.as_str())?;
    let registry = parse_registry(package.header_xml.as_str())?;
    let blocks = parse_section(package.section_xml.as_str(), &registry)?;
    Ok(ParsedHwpx { document: Document { blocks }, metadata })
}

/// The dump of what reading a package gives.
pub fn debug_dump(bytes: &[u8]) -> (r: Result<String, CoreRsError>)
    ensures
        dump_holds(bytes@, r),
        bytes@.len() < 22 ==> (r matches Err(e) && error_fits(LoadErrorV::NotOpened, e@)),
{
    let parsed = parse_hwpx(bytes)?;
    Ok(dump::render(&parsed))
}

} // verus!
