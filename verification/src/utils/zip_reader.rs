//! Reading ZIP archives: how many entries an archive has, and each entry's name
//! and contents, by index.
use vstd::prelude::*;
use std::io::{Cursor, Read};
use zip::ZipArchive;

verus! {

/// The number of entries in the archive that the bytes hold; nothing where they
/// hold no archive that opens.
pub uninterp spec fn spec_zip_entry_count(bytes: Seq<u8>) -> Option<nat>;

/// The name of the entry at an index; nothing where the archive or the entry
/// does not open.
pub uninterp spec fn spec_zip_entry_name(bytes: Seq<u8>, index: nat) -> Option<Seq<char>>;

/// The first (decompressed) bytes of the entry at an index, at most `limit` of
/// them; nothing where the archive or the entry does not open, or reading those
/// bytes fails.
pub uninterp spec fn spec_zip_entry_prefix(bytes: Seq<u8>, index: nat, limit: nat) -> Option<Seq<u8>>;

/// The number of entries of an archive.
///
/// Trusted: `ZipArchive::new` over the bytes, then `len`. Whether the archive
/// opens, and how many entries it has, is a function of the bytes (they are read
/// from memory); when it does not open, the zip crate's error message is returned.
/// Fewer bytes than an end-of-central-directory record (22) never open: the record
/// is searched for within the bytes.
#[verifier::external_body]
pub fn zip_entry_count(bytes: &[u8]) -> (r: Result<usize, String>)
    ensures
        match spec_zip_entry_count(bytes@) {
            Some(n) => r matches Ok(c) && c == n,
            None => r is Err,
        },
        bytes@.len() < 22 ==> r is Err,
{
    ZipArchive::new(Cursor::new(bytes)).map(|archive| archive.len()).map_err(|error| error.to_string())
}

/// The name of the entry at an index.
///
/// Trusted: `ZipArchive::new`, `ZipArchive::by_index` and `ZipFile::name`; whether
/// they succeed, and the name, are a function of the bytes and the index. Failures
/// carry the zip crate's message.
#[verifier::external_body]
pub fn zip_entry_name(bytes: &[u8], index: usize) -> (r: Result<String, String>)
    ensures
        match spec_zip_entry_name(bytes@, index as nat) {
            Some(name) => r matches Ok(n) && n@ == name,
            None => r is Err,
        },
{
    let mut archive = ZipArchive::new(Cursor::new(bytes)).map_err(|error| error.to_string())?;
    let file = archive.by_index(index).map_err(|error| error.to_string())?;
    Ok(file.name().to_string())
}

/// The first bytes, at most `limit` of them, of the entry at an index.
///
/// Trusted: `ZipArchive::new` and `ZipArchive::by_index`, then `Read::take(limit)`
/// and `read_to_end` on the entry: whether this succeeds, and the bytes read, are a
/// function of the bytes, the index and the limit; `take` reads at most `limit`
/// bytes. Failures (of the archive or of decompression) carry the error's message.
#[verifier::external_body]
pub fn zip_entry_prefix(bytes: &[u8], index: usize, limit: u64) -> (r: Result<Vec<u8>, String>)
    ensures
        match spec_zip_entry_prefix(bytes@, index as nat, limit as nat) {
            Some(data) => r matches Ok(d) && d@ == data && data.len() <= limit,
            None => r is Err,
        },
{
    let mut archive = ZipArchive::new(Cursor::new(bytes)).map_err(|error| error.to_string())?;
    let file = archive.by_index(index).map_err(|error| error.to_string())?;
    let mut data = Vec::new();
    file.take(limit).read_to_end(&mut data).map_err(|error| error.to_string())?;
    Ok(data)
}

/// The text that UTF-8 bytes encode.
///
/// Trusted: `String::from_utf8` succeeds exactly on valid UTF-8 and then holds the
/// decoded characters; its error message is passed on.
#[verifier::external_body]
pub fn utf8_string(bytes: Vec<u8>) -> (r: Result<String, String>)
    ensures
        r is Ok <==> vstd::utf8::valid_utf8(bytes@),
        r matches Ok(s) ==> s@ == vstd::utf8::decode_utf8(bytes@),
{
    String::from_utf8(bytes).map_err(|error| error.to_string())
}

} // verus!
