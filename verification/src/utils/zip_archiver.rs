//! Packing files into a ZIP archive.
use vstd::prelude::*;
use std::io::{Cursor, Write};
use zip::{CompressionMethod, DateTime, ZipWriter};
use zip::write::SimpleFileOptions;
use crate::error::{CoreRsError, ErrorKind};
use crate::utils::text::{lex_lt, str_lt};
use crate::utils::zip_reader::{spec_zip_entry_count, spec_zip_entry_name, spec_zip_entry_prefix};

verus! {

/// An archive being written into memory. Its writer is hidden from verification;
/// what it holds is named by `zip_pending`.
#[verifier::external_body]
pub struct ZipBuilder {
    writer: ZipWriter<Cursor<Vec<u8>>>,
}

/// How an archive entry is stored.
#[derive(Debug, Clone, Copy, PartialEq, Eq, Structural)]
pub enum Compression {
    Stored,
    Deflated,
}

/// A file to put into an archive.
#[derive(Debug)]
pub struct ArchiveEntry {
    pub path: String,
    pub contents: Vec<u8>,
    pub compression: Compression,
}

/// An entry as its path, its bytes and whether it is deflated.
pub type EntryV = (Seq<char>, Seq<u8>, bool);

impl View for ArchiveEntry {
    type V = EntryV;

    open spec fn view(&self) -> EntryV {
        (self.path@, self.contents@, self.compression == Compression::Deflated)
    }
}

pub open spec fn entries_view(s: Seq<ArchiveEntry>) -> Seq<EntryV> {
    s.map_values(|e: ArchiveEntry| e@)
}

impl ArchiveEntry {
    /// A stored text file.
    pub fn new_text(path: &str, contents: String) -> (e: ArchiveEntry)
        ensures
            e.path@ == path@,
            e.contents@ == vstd::utf8::encode_utf8(contents@),
            e.compression == Compression::Stored,
    {
        ArchiveEntry { path: path.to_owned(), contents: string_bytes(contents), compression: Compression::Stored }
    }

    /// A stored binary file.
    pub fn new_bytes(path: &str, contents: Vec<u8>) -> (e: ArchiveEntry)
        ensures
            e.path@ == path@,
            e.contents@ == contents@,
            e.compression == Compression::Stored,
    {
        ArchiveEntry { path: path.to_owned(), contents, compression: Compression::Stored }
    }

    /// A text file stored with the given compression.
    pub fn new_text_with_compression(path: &str, contents: String, compression: Compression) -> (e: ArchiveEntry)
        ensures
            e.path@ == path@,
            e.contents@ == vstd::utf8::encode_utf8(contents@),
            e.compression == compression,
    {
        ArchiveEntry { path: path.to_owned(), contents: string_bytes(contents), compression }
    }
}

/// The UTF-8 bytes of a string.
pub fn string_bytes(s: String) -> (b: Vec<u8>)
    ensures
        b@ == vstd::utf8::encode_utf8(s@),
{
    vstd::slice::slice_to_vec(s.as_str().as_bytes())
}

/// The files that an archive writer holds, in order, each as (path, the bytes
/// written into it, whether it is deflated).
pub uninterp spec fn zip_pending(w: ZipBuilder) -> Seq<EntryV>;

/// Every call made on the writer so far succeeded.
pub uninterp spec fn zip_clean(w: ZipBuilder) -> bool;

/// The bytes of an archive holding the given files in the given order, each
/// written with one `write_all`, with a fixed modification time and default
/// options.
pub uninterp spec fn spec_zip_bytes(entries: Seq<EntryV>) -> Seq<u8>;

/// Whether starting a file under a path succeeds on a writer that holds the given
/// files and on which every call succeeded (such a writer's state is a function
/// of the files it holds).
pub uninterp spec fn spec_zip_start_ok(pending: Seq<EntryV>, path: Seq<char>, deflated: bool) -> bool;

/// Whether writing a file's bytes succeeds on such a writer, its last file just
/// started.
pub uninterp spec fn spec_zip_write_ok(pending: Seq<EntryV>, data: Seq<u8>) -> bool;

/// Whether finishing such a writer succeeds.
pub uninterp spec fn spec_zip_finish_ok(pending: Seq<EntryV>) -> bool;

/// A path short enough for the zip crate: at most 65535 bytes of UTF-8.
pub open spec fn path_fits(path: Seq<char>) -> bool {
    vstd::utf8::encode_utf8(path).len() <= u16::MAX
}

/// The first `k` files are written: each path fits, and starting the file and
/// writing its bytes succeed on the writer that holds the files before it.
pub open spec fn spec_files_written(ev: Seq<EntryV>, k: nat) -> bool
    decreases k,
{
    if k == 0 {
        true
    } else {
        let i = (k - 1) as int;
        &&& spec_files_written(ev, (k - 1) as nat)
        &&& path_fits(ev[i].0)
        &&& spec_zip_start_ok(ev.take(i), ev[i].0, ev[i].2)
        &&& spec_zip_write_ok(ev.take(i).push((ev[i].0, Seq::<u8>::empty(), ev[i].2)), ev[i].1)
    }
}

/// Packing the files in order succeeds: each is written, and the archive is
/// finished.
pub open spec fn spec_packs(ev: Seq<EntryV>) -> bool {
    spec_files_written(ev, ev.len()) && spec_zip_finish_ok(ev)
}

proof fn lemma_files_written_prefix(ev: Seq<EntryV>, k: nat, n: nat)
    requires
        k <= n,
        spec_files_written(ev, n),
    ensures
        spec_files_written(ev, k),
    decreases n - k,
{
    if k < n {
        lemma_files_written_prefix(ev, k, (n - 1) as nat);
    }
}

/// The first bytes of a file, at most `limit` of them.
pub open spec fn bytes_prefix(data: Seq<u8>, limit: nat) -> Seq<u8> {
    data.take(if data.len() < limit { data.len() as int } else { limit as int })
}

/// Reading the archive that the bytes hold gives the files back: their number,
/// each one's path, and (as far as a read asks) each one's bytes, in order.
pub open spec fn reads_back(bytes: Seq<u8>, files: Seq<EntryV>) -> bool {
    &&& spec_zip_entry_count(bytes) == Some(files.len())
    &&& forall|i: int| 0 <= i < files.len() ==> #[trigger] spec_zip_entry_name(bytes, i as nat) == Some(files[i].0)
    &&& forall|i: int, limit: nat| 0 <= i < files.len() ==> #[trigger] spec_zip_entry_prefix(bytes, i as nat, limit)
        == Some(bytes_prefix(files[i].1, limit))
}

/// The largest file that is packed with certainty: the zip crate refuses a file
/// whose size passes 4 GiB without its large-file option, and deflate (which
/// writes a block that would grow as a stored block, at most 5 bytes larger) keeps
/// the compressed size of a file of at most 1 GiB well under that.
pub const MAX_PACKED_ENTRY_BYTES: usize = 1073741824;

/// Entries that pack with certainty: no path twice, every path at most 65535
/// bytes of UTF-8, every file at most `MAX_PACKED_ENTRY_BYTES` bytes.
pub open spec fn packable(entries: Seq<EntryV>) -> bool {
    &&& forall|i: int, j: int| 0 <= i < j < entries.len() ==> #[trigger] entries[i].0 != #[trigger] entries[j].0
    &&& forall|i: int| 0 <= i < entries.len() ==> #[trigger] entry_packable(entries[i])
}

/// A file that packs with certainty: a path of at most 65535 bytes of UTF-8 and at
/// most `MAX_PACKED_ENTRY_BYTES` bytes of contents.
pub open spec fn entry_packable(e: EntryV) -> bool {
    e.1.len() <= MAX_PACKED_ENTRY_BYTES && vstd::utf8::encode_utf8(e.0).len() <= u16::MAX
}

/// A text of `n` characters takes at most `4 * n` bytes of UTF-8.
pub proof fn lemma_utf8_len_bound(s: Seq<char>)
    ensures
        vstd::utf8::encode_utf8(s).len() <= 4 * s.len(),
    decreases s.len(),
{
    if s.len() > 0 {
        lemma_utf8_len_bound(s.drop_first());
    }
}

/// Every file's contents are at most `MAX_PACKED_ENTRY_BYTES` bytes.
pub open spec fn contents_fit(entries: Seq<EntryV>) -> bool {
    forall|i: int| 0 <= i < entries.len() ==> #[trigger] entries[i].1.len() <= MAX_PACKED_ENTRY_BYTES
}

/// Some path occurs twice.
pub open spec fn repeats_a_path(entries: Seq<EntryV>) -> bool {
    exists|i: int, j: int| 0 <= i < j < entries.len() && #[trigger] entries[i].0 == #[trigger] entries[j].0
}

/// A new archive writer over an empty buffer.
///
/// Trusted: `ZipWriter::new` starts an archive with no files.
#[verifier::external_body]
fn zip_writer_new() -> (w: ZipBuilder)
    ensures
        zip_pending(w) == Seq::<EntryV>::empty(),
        zip_clean(w),
{
    ZipBuilder { writer: ZipWriter::new(Cursor::new(Vec::new())) }
}

/// Starts a file in the archive.
///
/// Trusted: `ZipWriter::start_file` with default options, the given compression
/// and a fixed modification time. Whether it succeeds is named: the writer's
/// state is a function of the files it holds. It first finishes the file being written, which
/// fails only when that file's compressed size passes 4 GiB; it then refuses a
/// name that the archive holds ("Duplicate filename"); writing into the in-memory
/// buffer does not fail. On success the archive has one more file, empty so far.
/// A name longer than 65535 bytes makes the crate panic, so it is left out.
#[verifier::external_body]
fn zip_start_file(w: &mut ZipBuilder, path: &str, compression: Compression) -> (r: Result<(), String>)
    requires
        zip_clean(*old(w)),
        vstd::utf8::encode_utf8(path@).len() <= u16::MAX,
    ensures
        r is Ok <==> spec_zip_start_ok(zip_pending(*old(w)), path@, compression == Compression::Deflated),
        r is Ok ==> zip_clean(*final(w)) && zip_pending(*final(w)) == zip_pending(*old(w)).push(
            (path@, Seq::<u8>::empty(), compression == Compression::Deflated),
        ),
        (exists|k: int| 0 <= k < zip_pending(*old(w)).len() && #[trigger] zip_pending(*old(w))[k].0 == path@) ==> r is Err,
        (forall|k: int| 0 <= k < zip_pending(*old(w)).len() ==> #[trigger] zip_pending(*old(w))[k].0 != path@)
            && (zip_pending(*old(w)).len() == 0 || zip_pending(*old(w)).last().1.len() <= MAX_PACKED_ENTRY_BYTES)
            ==> r is Ok,
{
    let method = match compression {
        Compression::Stored => CompressionMethod::Stored,
        Compression::Deflated => CompressionMethod::Deflated,
    };
    let options = SimpleFileOptions::default()
        .compression_method(method)
        .last_modified_time(DateTime::default());
    w.writer.start_file(path, options).map_err(|e| e.to_string())
}

/// Writes a file's bytes, in one call, into the file just started.
///
/// Trusted: `Write::write_all` on a `ZipWriter` with a file started appends the
/// bytes to that file (whether it succeeds is named); `ZipWriter::write` refuses only once the file's size passes
/// 4 GiB (an empty write succeeds and changes nothing).
#[verifier::external_body]
fn zip_write_all(w: &mut ZipBuilder, data: &[u8]) -> (r: Result<(), String>)
    requires
        zip_clean(*old(w)),
        zip_pending(*old(w)).len() > 0,
        zip_pending(*old(w)).last().1.len() == 0,
    ensures
        r is Ok <==> spec_zip_write_ok(zip_pending(*old(w)), data@),
        r is Ok ==> zip_clean(*final(w)) && zip_pending(*final(w)) == zip_pending(*old(w)).update(
            zip_pending(*old(w)).len() - 1,
            (zip_pending(*old(w)).last().0, data@, zip_pending(*old(w)).last().2),
        ),
        data@.len() <= u32::MAX ==> r is Ok,
{
    w.writer.write_all(data).map_err(|e| e.to_string())
}

/// Finishes the archive.
///
/// Trusted: `ZipWriter::finish` finishes the last file (which fails only when its
/// compressed size passes 4 GiB; whether it succeeds is named) and writes the central directory into the
/// in-memory buffer; the buffer then holds the archive of the files written.
/// That archive reads back with `ZipArchive`: its central directory lists the
/// files in the order written, under the names written (non-ASCII names flagged
/// as UTF-8), and each file's data decompresses to the bytes written.
#[verifier::external_body]
fn zip_finish(w: ZipBuilder) -> (r: Result<Vec<u8>, String>)
    requires
        zip_clean(w),
    ensures
        r is Ok <==> spec_zip_finish_ok(zip_pending(w)),
        r matches Ok(b) ==> b@ == spec_zip_bytes(zip_pending(w)) && reads_back(b@, zip_pending(w)),
        zip_pending(w).len() == 0 || zip_pending(w).last().1.len() <= MAX_PACKED_ENTRY_BYTES ==> r is Ok,
{
    w.writer.finish().map(|c| c.into_inner()).map_err(|e| e.to_string())
}

/// Packs the entries in the given order. Entries that pack with certainty give
/// the archive; a repeated path or a path longer than 65535 bytes is an error.
pub fn zip_entries_in_order(entries: &Vec<ArchiveEntry>) -> (r: Result<Vec<u8>, CoreRsError>)
    ensures
        match r {
            Ok(b) => b@ == spec_zip_bytes(entries_view(entries@)) && reads_back(b@, entries_view(entries@)),
            Err(e) => e@.kind == ErrorKind::Zip && !packable(entries_view(entries@)),
        },
        r is Ok <==> spec_packs(entries_view(entries@)),
        repeats_a_path(entries_view(entries@)) ==> r is Err,
{
    let ghost ev = entries_view(entries@);
    let mut writer = zip_writer_new();
    let mut i: usize = 0;
    while i < entries.len()
        invariant
            i <= entries.len(),
            ev == entries_view(entries@),
            zip_pending(writer) == ev.take(i as int),
            zip_clean(writer),
            spec_files_written(ev, i as nat),
            forall|a: int, b: int| 0 <= a < b < i ==> #[trigger] ev[a].0 != #[trigger] ev[b].0,
        decreases entries.len() - i,
    {
        let path = entries[i].path.as_str();
        let name_bytes = path.as_bytes();
        assert(name_bytes@ == vstd::utf8::encode_utf8(path@));
        if name_bytes.len() > 65535 {
            assert(!packable(ev)) by {
                assert(ev[i as int].0 == path@);
                if packable(ev) {
                    assert(entry_packable(ev[i as int]));
                }
            }
            proof {
                assert(!spec_files_written(ev, (i + 1) as nat));
                if spec_packs(ev) {
                    lemma_files_written_prefix(ev, (i + 1) as nat, ev.len());
                }
            }
            return Err(CoreRsError::from_str_detail(ErrorKind::Zip, "file name longer than 65535 bytes"));
        }
        let ghost pending = zip_pending(writer);
        match zip_start_file(&mut writer, path, entries[i].compression) {
            Ok(()) => {},
            Err(message) => {
                proof {
                    assert(ev[i as int].0 == path@);
                    if packable(ev) {
                        assert forall|k: int| 0 <= k < pending.len() implies #[trigger] pending[k].0 != path@ by {
                            assert(pending[k] == ev[k]);
                            assert(ev[k].0 != ev[i as int].0);
                        }
                        if pending.len() > 0 {
                            assert(pending.last() == ev[i - 1]);
                            assert(entry_packable(ev[i - 1]));
                        }
                        assert(false);
                    }
                    assert(pending == ev.take(i as int));
                    assert(!spec_files_written(ev, (i + 1) as nat));
                    if spec_packs(ev) {
                        lemma_files_written_prefix(ev, (i + 1) as nat, ev.len());
                    }
                }
                return Err(CoreRsError::new(ErrorKind::Zip, message));
            },
        }
        proof {
            assert forall|k: int| 0 <= k < i implies #[trigger] ev[k].0 != ev[i as int].0 by {
                if ev[k].0 == ev[i as int].0 {
                    assert(pending[k].0 == path@);
                }
            }
        }
        match zip_write_all(&mut writer, entries[i].contents.as_slice()) {
            Ok(()) => {},
            Err(message) => {
                assert(!packable(ev)) by {
                    assert(ev[i as int].1 == entries[i as int].contents@);
                    if packable(ev) {
                        assert(entry_packable(ev[i as int]));
                    }
                }
                proof {
                    assert(ev[i as int].1 == entries[i as int].contents@);
                    assert(pending.push((path@, Seq::<u8>::empty(), ev[i as int].2)) == ev.take(i as int).push((ev[i as int].0, Seq::<u8>::empty(), ev[i as int].2)));
                    assert(!spec_files_written(ev, (i + 1) as nat));
                    if spec_packs(ev) {
                        lemma_files_written_prefix(ev, (i + 1) as nat, ev.len());
                    }
                }
                return Err(CoreRsError::new(ErrorKind::Zip, message));
            },
        }
        proof {
            assert(ev[i as int].1 == entries[i as int].contents@);
            assert(pending == ev.take(i as int));
            assert(spec_files_written(ev, (i + 1) as nat));
        }
        assert(zip_pending(writer) =~= ev.take(i + 1));
        i += 1;
    }
    assert(ev.take(ev.len() as int) == ev);
    proof {
        if ev.len() > 0 {
            assert(zip_pending(writer).last() == ev[ev.len() - 1]);
            if packable(ev) {
                assert(entry_packable(ev[ev.len() - 1]));
            }
        }
    }
    match zip_finish(writer) {
        Ok(bytes) => Ok(bytes),
        Err(message) => Err(CoreRsError::new(ErrorKind::Zip, message)),
    }
}

/// Inserts an entry after every entry whose path does not sort after its own.
pub open spec fn spec_insert_by_path(sorted: Seq<EntryV>, e: EntryV) -> Seq<EntryV>
    decreases sorted.len(),
{
    if sorted.len() == 0 {
        seq![e]
    } else if lex_lt(e.0, sorted.last().0) {
        spec_insert_by_path(sorted.drop_last(), e).push(sorted.last())
    } else {
        sorted.push(e)
    }
}

/// The entries sorted by path; entries with equal paths keep their order.
pub open spec fn spec_sort_by_path(s: Seq<EntryV>) -> Seq<EntryV>
    decreases s.len(),
{
    if s.len() == 0 {
        seq![]
    } else {
        spec_insert_by_path(spec_sort_by_path(s.drop_last()), s.last())
    }
}

proof fn lemma_insert_len(sorted: Seq<EntryV>, e: EntryV)
    ensures
        spec_insert_by_path(sorted, e).len() == sorted.len() + 1,
    decreases sorted.len(),
{
    if sorted.len() > 0 && lex_lt(e.0, sorted.last().0) {
        lemma_insert_len(sorted.drop_last(), e);
    }
}

/// Inserts an entry into entries sorted by path, after those that do not sort after it.
fn insert_by_path(sorted: &mut Vec<ArchiveEntry>, entry: ArchiveEntry)
    ensures
        entries_view(final(sorted)@) == spec_insert_by_path(entries_view(old(sorted)@), entry@),
    decreases old(sorted)@.len(),
{
    let ghost before = entries_view(sorted@);
    if sorted.len() > 0 && str_lt(entry.path.as_str(), sorted[sorted.len() - 1].path.as_str()) {
        let last = sorted.pop().unwrap();
        assert(entries_view(sorted@) =~= before.drop_last());
        let ghost last_view = last@;
        insert_by_path(sorted, entry);
        sorted.push(last);
        assert(entries_view(sorted@) =~= spec_insert_by_path(before.drop_last(), entry@).push(last_view));
    } else {
        sorted.push(entry);
        assert(entries_view(sorted@) =~= before.push(entry@));
    }
}

/// Packs the entries sorted by path. Entries that pack with certainty give the
/// archive; a repeated path is an error.
pub fn zip_entries(entries: Vec<ArchiveEntry>) -> (r: Result<Vec<u8>, CoreRsError>)
    ensures
        match r {
            Ok(b) => b@ == spec_zip_bytes(spec_sort_by_path(entries_view(entries@)))
                && reads_back(b@, spec_sort_by_path(entries_view(entries@))),
            Err(e) => e@.kind == ErrorKind::Zip && !packable(spec_sort_by_path(entries_view(entries@))),
        },
        r is Ok <==> spec_packs(spec_sort_by_path(entries_view(entries@))),
        repeats_a_path(spec_sort_by_path(entries_view(entries@))) ==> r is Err,
{
    let ghost ev = entries_view(entries@);
    let mut sorted: Vec<ArchiveEntry> = Vec::new();
    assert(entries_view(sorted@) =~= seq![]);
    let mut i: usize = 0;
    for entry in it: entries.into_iter()
        invariant
            it.seq() == entries@,
            ev == entries_view(entries@),
            entries_view(sorted@) == spec_sort_by_path(ev.take(it.index() as int)),
    {
        assert(ev.take(it.index() + 1).drop_last() == ev.take(it.index() as int));
        assert(ev.take(it.index() + 1).last() == entry@);
        insert_by_path(&mut sorted, entry);
    }
    assert(ev.take(ev.len() as int) == ev);
    zip_entries_in_order(&sorted)
}

} // verus!
