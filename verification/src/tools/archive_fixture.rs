//! Archives compared entry by entry: each text entry with its line endings and
//! trailing whitespace normalized, each binary entry by the SHA-256 of its bytes,
//! the entries listed by path as a sorted map lists them.
use vstd::prelude::*;
use sha2::{Digest, Sha256};
use crate::generators::docx::markup::spec_lines;
use crate::generators::docx::render::lines_of;
use crate::generators::hwpx::items::{join_strings, spec_join, strings_view};
use crate::utils::text::{
    lemma_lex_asym, lemma_lex_total, lemma_lex_trans, lex_lt, replace_all, spec_replace, spec_trim,
    spec_trim_end, str_eq, str_lt, trim, trim_end,
};
use crate::utils::zip_reader::{
    spec_zip_entry_count, spec_zip_entry_name, spec_zip_entry_prefix, utf8_string, zip_entry_count,
    zip_entry_name, zip_entry_prefix,
};

verus! {

/// The lowercase hexadecimal SHA-256 digest of bytes.
pub uninterp spec fn spec_sha256_hex(bytes: Seq<u8>) -> Seq<char>;

/// The SHA-256 digest of bytes, as lowercase hexadecimal text.
///
/// Trusted: `Sha256::digest` over the bytes, formatted with `{:x}`; the text is a
/// function of the bytes alone.
#[verifier::external_body]
fn sha256_hex(bytes: &[u8]) -> (s: String)
    ensures
        s@ == spec_sha256_hex(bytes@),
{
    format!("{:x}", Sha256::digest(bytes))
}

/// An archive entry as compared: normalized text, or the digest of binary bytes.
#[derive(Debug, Clone, PartialEq, Eq)]
pub enum NormalizedEntry {
    Text(String),
    BinaryHash(String),
}

/// How a binary entry is kept in a fixture's expected tree: as its bytes, or as a
/// `.sha256` file that holds its digest.
#[derive(Debug, Clone, Copy, PartialEq, Eq, Structural)]
pub enum BinaryRepresentation {
    Raw,
    Sha256Sidecar,
}

/// The model of a normalized entry.
pub enum NormalizedEntryV {
    Text(Seq<char>),
    BinaryHash(Seq<char>),
}

impl View for NormalizedEntry {
    type V = NormalizedEntryV;

    open spec fn view(&self) -> NormalizedEntryV {
        match self {
            NormalizedEntry::Text(t) => NormalizedEntryV::Text(t@),
            NormalizedEntry::BinaryHash(h) => NormalizedEntryV::BinaryHash(h@),
        }
    }
}

/// A path and the entry stored under it.
pub type PathEntryV = (Seq<char>, NormalizedEntryV);

/// The model of a list of paths and entries.
pub open spec fn normalized_view(v: Seq<(String, NormalizedEntry)>) -> Seq<PathEntryV> {
    v.map_values(|e: (String, NormalizedEntry)| (e.0@, e.1@))
}

/// Text as fixtures compare it: `\r\n` made `\n`, each line without trailing
/// whitespace, the lines joined with `\n`, and the whole trimmed.
pub open spec fn spec_normalize_content(text: Seq<char>) -> Seq<char> {
    let lines = spec_lines(spec_replace(text, seq!['\r', '\n'], seq!['\n']));
    spec_trim(spec_join(spec_trim_lines(lines), seq!['\n']))
}

/// Each line without its trailing whitespace.
pub open spec fn spec_trim_lines(lines: Seq<Seq<char>>) -> Seq<Seq<char>> {
    lines.map_values(|l: Seq<char>| spec_trim_end(l))
}

/// Normalizes text as fixtures compare it.
pub fn normalize_content(text: &str) -> (r: String)
    ensures
        r@ == spec_normalize_content(text@),
{
    proof {
        reveal_strlit("\r\n");
        reveal_strlit("\n");
    }
    let replaced = replace_all(text, "\r\n", "\n");
    assert("\r\n"@ =~= seq!['\r', '\n']);
    assert("\n"@ =~= seq!['\n']);
    let lines = lines_of(replaced.as_str());
    let ghost ls = strings_view(lines@);
    let mut trimmed: Vec<String> = Vec::new();
    let mut i: usize = 0;
    while i < lines.len()
        invariant
            i <= lines.len(),
            ls == strings_view(lines@),
            strings_view(trimmed@) == spec_trim_lines(ls.take(i as int)),
        decreases lines.len() - i,
    {
        let ghost before = strings_view(trimmed@);
        trimmed.push(trim_end(lines[i].as_str()));
        assert(ls[i as int] == lines@[i as int]@);
        assert(strings_view(trimmed@) =~= before.push(spec_trim_end(ls[i as int])));
        i += 1;
        assert(spec_trim_lines(ls.take(i as int)) =~= before.push(spec_trim_end(ls[i - 1])));
    }
    assert(ls.take(i as int) == ls);
    let joined = join_strings(&trimmed, "\n");
    assert(ls == spec_lines(spec_replace(text@, seq!['\r', '\n'], seq!['\n'])));
    assert(joined@ == spec_join(spec_trim_lines(ls), seq!['\n']));
    trim(joined.as_str())
}

/// The entry that an archive entry's bytes give: normalized text where the entry
/// is text (nothing where those bytes are not UTF-8), else the digest of the bytes.
pub open spec fn spec_normalized_entry(data: Seq<u8>, text: bool) -> Option<NormalizedEntryV> {
    if text {
        if vstd::utf8::valid_utf8(data) {
            Some(NormalizedEntryV::Text(spec_normalize_content(vstd::utf8::decode_utf8(data))))
        } else {
            None
        }
    } else {
        Some(NormalizedEntryV::BinaryHash(spec_sha256_hex(data)))
    }
}

/// The entry that an archive entry's bytes give; an error where a text entry is
/// not UTF-8.
pub fn normalized_entry(data: Vec<u8>, text: bool) -> (r: Result<NormalizedEntry, String>)
    ensures
        match spec_normalized_entry(data@, text) {
            None => r is Err,
            Some(e) => r matches Ok(x) && x@ == e,
        },
{
    if text {
        match utf8_string(data) {
            Ok(s) => Ok(NormalizedEntry::Text(normalize_content(s.as_str()))),
            Err(_) => Err(String::from_str("text fixture entry must be UTF-8")),
        }
    } else {
        Ok(NormalizedEntry::BinaryHash(sha256_hex(data.as_slice())))
    }
}

/// The map that storing entries in order gives: a later entry under a path
/// replaces an earlier one.
pub open spec fn spec_last_wins(items: Seq<PathEntryV>) -> Map<Seq<char>, NormalizedEntryV>
    decreases items.len(),
{
    if items.len() == 0 {
        Map::empty()
    } else {
        spec_last_wins(items.drop_last()).insert(items.last().0, items.last().1)
    }
}

/// A list holds a map as a sorted map lists it: by path, strictly ascending,
/// each path of the map once with its entry, and nothing else.
pub open spec fn lists_map(v: Seq<PathEntryV>, m: Map<Seq<char>, NormalizedEntryV>) -> bool {
    &&& forall|i: int, j: int| 0 <= i < j < v.len() ==> lex_lt(#[trigger] v[i].0, #[trigger] v[j].0)
    &&& forall|i: int| 0 <= i < v.len() ==> #[trigger] m.contains_key(v[i].0) && m[v[i].0] == v[i].1
    &&& forall|k: Seq<char>| #[trigger] m.contains_key(k) ==> exists|i: int| 0 <= i < v.len() && v[i].0 == k
}

proof fn lemma_lex_irrefl(a: Seq<char>)
    ensures
        !lex_lt(a, a),
{
    lemma_lex_asym(a, a);
}

/// A map has one sorted listing.
pub proof fn lemma_listing_unique(v1: Seq<PathEntryV>, v2: Seq<PathEntryV>, m: Map<Seq<char>, NormalizedEntryV>)
    requires
        lists_map(v1, m),
        lists_map(v2, m),
    ensures
        v1 == v2,
    decreases v1.len(),
{
    if v1.len() == 0 {
        if v2.len() > 0 {
            assert(m.contains_key(v2[0].0));
        }
        assert(v1 =~= v2);
    } else {
        assert(m.contains_key(v1[0].0));
        let j = choose|j: int| 0 <= j < v2.len() && v2[j].0 == v1[0].0;
        assert(m.contains_key(v2[0].0));
        let i = choose|i: int| 0 <= i < v1.len() && v1[i].0 == v2[0].0;
        if j > 0 {
            assert(lex_lt(v2[0].0, v2[j].0));
            if i > 0 {
                assert(lex_lt(v1[0].0, v1[i].0));
                lemma_lex_asym(v1[0].0, v1[i].0);
            } else {
                lemma_lex_irrefl(v1[0].0);
            }
        }
        let k = v1[0].0;
        let m2 = m.remove(k);
        let w1 = v1.drop_first();
        let w2 = v2.drop_first();
        assert(lists_map(w1, m2)) by {
            assert forall|a: int| 0 <= a < w1.len() implies #[trigger] m2.contains_key(w1[a].0) && m2[w1[a].0] == w1[a].1 by {
                assert(lex_lt(v1[0].0, v1[a + 1].0));
                lemma_lex_irrefl(k);
            }
            assert forall|key: Seq<char>| #[trigger] m2.contains_key(key) implies exists|a: int| 0 <= a < w1.len() && w1[a].0 == key by {
                assert(m.contains_key(key));
                let b = choose|b: int| 0 <= b < v1.len() && v1[b].0 == key;
                assert(w1[b - 1].0 == key);
            }
            assert forall|a: int, b: int| 0 <= a < b < w1.len() implies lex_lt(#[trigger] w1[a].0, #[trigger] w1[b].0) by {
                assert(lex_lt(v1[a + 1].0, v1[b + 1].0));
            }
        }
        assert(lists_map(w2, m2)) by {
            assert forall|a: int| 0 <= a < w2.len() implies #[trigger] m2.contains_key(w2[a].0) && m2[w2[a].0] == w2[a].1 by {
                assert(lex_lt(v2[0].0, v2[a + 1].0));
                lemma_lex_irrefl(k);
            }
            assert forall|key: Seq<char>| #[trigger] m2.contains_key(key) implies exists|a: int| 0 <= a < w2.len() && w2[a].0 == key by {
                assert(m.contains_key(key));
                let b = choose|b: int| 0 <= b < v2.len() && v2[b].0 == key;
                assert(w2[b - 1].0 == key);
            }
            assert forall|a: int, b: int| 0 <= a < b < w2.len() implies lex_lt(#[trigger] w2[a].0, #[trigger] w2[b].0) by {
                assert(lex_lt(v2[a + 1].0, v2[b + 1].0));
            }
        }
        lemma_listing_unique(w1, w2, m2);
        assert(v1[0] == v2[0]);
        assert(v1 =~= seq![v1[0]] + w1);
        assert(v2 =~= seq![v2[0]] + w2);
    }
}

/// Stores an entry under a path in a sorted listing, replacing what was there.
fn insert_entry(
    entries: &mut Vec<(String, NormalizedEntry)>,
    name: String,
    entry: NormalizedEntry,
    Ghost(m): Ghost<Map<Seq<char>, NormalizedEntryV>>,
)
    requires
        lists_map(normalized_view(old(entries)@), m),
    ensures
        lists_map(normalized_view(final(entries)@), m.insert(name@, entry@)),
{
    let ghost v = normalized_view(entries@);
    let mut j: usize = 0;
    while j < entries.len() && str_lt(entries[j].0.as_str(), name.as_str())
        invariant
            j <= entries.len(),
            v == normalized_view(entries@),
            entries@ == old(entries)@,
            forall|i: int| 0 <= i < j ==> lex_lt(#[trigger] v[i].0, name@),
        decreases entries.len() - j,
    {
        j += 1;
    }
    let ghost x = (name@, entry@);
    assert(x.0 == name@);
    if j < entries.len() && str_eq(entries[j].0.as_str(), name.as_str()) {
        entries.set(j, (name, entry));
        let ghost w = normalized_view(entries@);
        assert(w =~= v.update(j as int, x));
        assert(lists_map(w, m.insert(x.0, x.1))) by {
            let m2 = m.insert(x.0, x.1);
            assert forall|i: int| 0 <= i < w.len() implies #[trigger] m2.contains_key(w[i].0) && m2[w[i].0] == w[i].1 by {
                if i < j {
                    assert(w[i] == v[i]);
                    assert(m.contains_key(v[i].0));
                    assert(lex_lt(v[i].0, v[j as int].0));
                    lemma_lex_irrefl(x.0);
                } else if i > j {
                    assert(w[i] == v[i]);
                    assert(m.contains_key(v[i].0));
                    assert(lex_lt(v[j as int].0, v[i].0));
                    lemma_lex_irrefl(x.0);
                } else {
                    assert(w[i] == x);
                }
            }
            assert forall|k: Seq<char>| #[trigger] m2.contains_key(k) implies exists|i: int| 0 <= i < w.len() && w[i].0 == k by {
                if k == x.0 {
                    assert(w[j as int].0 == k);
                } else {
                    assert(m.contains_key(k));
                    let i = choose|i: int| 0 <= i < v.len() && v[i].0 == k;
                    assert(w[i].0 == k);
                }
            }
            assert forall|a: int, b: int| 0 <= a < b < w.len() implies lex_lt(#[trigger] w[a].0, #[trigger] w[b].0) by {
                assert(lex_lt(v[a].0, v[b].0));
            }
        }
    } else {
        entries.insert(j, (name, entry));
        let ghost w = normalized_view(entries@);
        assert(w =~= v.insert(j as int, x));
        assert(lists_map(w, m.insert(x.0, x.1))) by {
            if j < v.len() {
                lemma_lex_total(v[j as int].0, x.0);
            }
            assert forall|i: int| j <= i < v.len() implies lex_lt(x.0, #[trigger] v[i].0) by {
                if i > j {
                    assert(lex_lt(v[j as int].0, v[i].0));
                    lemma_lex_trans(x.0, v[j as int].0, v[i].0);
                }
            }
            let m2 = m.insert(x.0, x.1);
            assert forall|i: int| 0 <= i < w.len() implies #[trigger] m2.contains_key(w[i].0) && m2[w[i].0] == w[i].1 by {
                if i < j {
                    assert(w[i] == v[i]);
                    assert(m.contains_key(v[i].0));
                    assert(lex_lt(v[i].0, name@));
                    lemma_lex_irrefl(x.0);
                } else if i > j {
                    assert(w[i] == v[i - 1]);
                    assert(m.contains_key(v[i - 1].0));
                    assert(lex_lt(x.0, v[i - 1].0));
                    lemma_lex_irrefl(x.0);
                } else {
                    assert(w[i] == x);
                }
            }
            assert forall|k: Seq<char>| #[trigger] m2.contains_key(k) implies exists|i: int| 0 <= i < w.len() && w[i].0 == k by {
                if k == x.0 {
                    assert(w[j as int].0 == k);
                } else {
                    assert(m.contains_key(k));
                    let i = choose|i: int| 0 <= i < v.len() && v[i].0 == k;
                    if i < j {
                        assert(w[i].0 == k);
                    } else {
                        assert(w[i + 1].0 == k);
                    }
                }
            }
            assert forall|a: int, b: int| 0 <= a < b < w.len() implies lex_lt(#[trigger] w[a].0, #[trigger] w[b].0) by {
                if b < j {
                    assert(lex_lt(v[a].0, v[b].0));
                } else if b == j {
                    assert(w[a] == v[a]);
                } else if a == j {
                    assert(w[b] == v[b - 1]);
                } else if a < j {
                    assert(lex_lt(v[a].0, v[b - 1].0));
                } else {
                    assert(lex_lt(v[a - 1].0, v[b - 1].0));
                }
            }
        }
    }
}

/// The entries that an archive's entries give, in archive order (path, bytes,
/// whether the entry is text): each path with its normalized entry; nothing where
/// a text entry is not UTF-8.
pub open spec fn spec_normalized_items(raw: Seq<(Seq<char>, Seq<u8>, bool)>) -> Option<Seq<PathEntryV>>
    decreases raw.len(),
{
    if raw.len() == 0 {
        Some(seq![])
    } else {
        match spec_normalized_items(raw.drop_last()) {
            None => None,
            Some(items) => match spec_normalized_entry(raw.last().1, raw.last().2) {
                None => None,
                Some(e) => Some(items.push((raw.last().0, e))),
            },
        }
    }
}

proof fn lemma_items_stay_none(raw: Seq<(Seq<char>, Seq<u8>, bool)>, k: int)
    requires
        0 <= k <= raw.len(),
        spec_normalized_items(raw.take(k)) is None,
    ensures
        spec_normalized_items(raw) is None,
    decreases raw.len() - k,
{
    if k == raw.len() {
        assert(raw.take(k) == raw);
    } else {
        assert(raw.take(k + 1).drop_last() == raw.take(k));
        lemma_items_stay_none(raw, k + 1);
    }
}

/// The model of raw archive entries.
pub open spec fn raw_view(raw: Seq<(String, Vec<u8>, bool)>) -> Seq<(Seq<char>, Seq<u8>, bool)> {
    raw.map_values(|e: (String, Vec<u8>, bool)| (e.0@, e.1@, e.2))
}

/// Stores the entry that an archive entry gives in a sorted listing.
fn add_entry(
    entries: &mut Vec<(String, NormalizedEntry)>,
    name: String,
    data: Vec<u8>,
    text: bool,
    Ghost(items): Ghost<Seq<PathEntryV>>,
) -> (r: Result<(), String>)
    requires
        lists_map(normalized_view(old(entries)@), spec_last_wins(items)),
    ensures
        match spec_normalized_entry(data@, text) {
            None => r is Err,
            Some(e) => r is Ok && lists_map(normalized_view(final(entries)@), spec_last_wins(items.push((name@, e)))),
        },
{
    let ghost x = (name@, spec_normalized_entry(data@, text));
    let entry = normalized_entry(data, text)?;
    assert(items.push((x.0, entry@)).drop_last() =~= items);
    insert_entry(entries, name, entry, Ghost(spec_last_wins(items)));
    Ok(())
}

/// The sorted listing of entries read from an archive, in archive order, each with
/// its path, its bytes and whether it is text: text entries normalized, binary
/// entries by their digest, a later entry under a path replacing an earlier one.
/// A text entry that is not UTF-8 is an error.
pub fn normalize_archive_entries(raw: &Vec<(String, Vec<u8>, bool)>) -> (r: Result<Vec<(String, NormalizedEntry)>, String>)
    ensures
        match spec_normalized_items(raw_view(raw@)) {
            None => r is Err,
            Some(items) => r matches Ok(v) && lists_map(normalized_view(v@), spec_last_wins(items)),
        },
{
    let ghost rv = raw_view(raw@);
    let mut entries: Vec<(String, NormalizedEntry)> = Vec::new();
    let ghost mut items: Seq<PathEntryV> = seq![];
    let mut i: usize = 0;
    assert(rv.take(0) =~= seq![]);
    while i < raw.len()
        invariant
            i <= raw.len(),
            rv == raw_view(raw@),
            spec_normalized_items(rv.take(i as int)) == Some(items),
            lists_map(normalized_view(entries@), spec_last_wins(items)),
        decreases raw.len() - i,
    {
        let name = raw[i].0.clone();
        let data = raw[i].1.clone();
        assert(data@ =~= raw@[i as int].1@);
        let text = raw[i].2;
        let ghost e = spec_normalized_entry(data@, text);
        assert(rv.take(i + 1).drop_last() =~= rv.take(i as int));
        assert(rv.take(i + 1).last() == (name@, data@, text));
        let added = add_entry(&mut entries, name, data, text, Ghost(items));
        if added.is_err() {
            proof {
                lemma_items_stay_none(rv, i + 1);
            }
            return Err(String::from_str("text fixture entry must be UTF-8"));
        }
        proof {
            items = items.push((raw@[i as int].0@, e.unwrap()));
        }
        i += 1;
    }
    assert(rv.take(i as int) == rv);
    Ok(entries)
}

/// The name of the entry at an index, as far as it reads.
pub open spec fn entry_name(bytes: Seq<u8>, index: nat) -> Seq<char> {
    spec_zip_entry_name(bytes, index)->Some_0
}

/// The bytes of the entry at an index (as many as a `u64` counts), as far as they
/// read.
pub open spec fn entry_contents(bytes: Seq<u8>, index: nat) -> Seq<u8> {
    spec_zip_entry_prefix(bytes, index, u64::MAX as nat)->Some_0
}

/// The name and the bytes of each entry before index `k` read.
pub open spec fn entries_read(bytes: Seq<u8>, k: nat) -> bool {
    forall|i: nat| i < k ==> #[trigger] spec_zip_entry_name(bytes, i) is Some
        && spec_zip_entry_prefix(bytes, i, u64::MAX as nat) is Some
}

/// An archive's first entries in order, each marked text or not as `flags` says.
pub open spec fn spec_archive_raw(bytes: Seq<u8>, flags: Seq<bool>) -> Seq<(Seq<char>, Seq<u8>, bool)> {
    Seq::new(flags.len(), |i: int| (entry_name(bytes, i as nat), entry_contents(bytes, i as nat), flags[i]))
}

/// `answer` is what a call of `is_text_entry` on the path can return.
pub open spec fn answers<F: Fn(&str) -> bool>(is_text_entry: F, path: Seq<char>, answer: bool) -> bool {
    exists|s: &str| s@ == path && #[trigger] is_text_entry.ensures((s,), answer)
}

/// The entries before `flags.len()` read, and each flag is an answer of
/// `is_text_entry` on the path of the entry at its index.
pub open spec fn prefix_answers<F: Fn(&str) -> bool>(is_text_entry: F, bytes: Seq<u8>, flags: Seq<bool>) -> bool {
    &&& entries_read(bytes, flags.len())
    &&& forall|i: int| 0 <= i < flags.len() ==> #[trigger] answers(is_text_entry, entry_name(bytes, i as nat), flags[i])
}

/// The archive opens, and `flags` holds one answer of `is_text_entry` per entry,
/// each entry read.
pub open spec fn text_answers<F: Fn(&str) -> bool>(is_text_entry: F, bytes: Seq<u8>, flags: Seq<bool>) -> bool {
    &&& spec_zip_entry_count(bytes) == Some(flags.len())
    &&& prefix_answers(is_text_entry, bytes, flags)
}

/// Reading and normalizing the archive's entries stops at the entry after those
/// that `flags` marks: these read and normalized, that entry's name or bytes do
/// not read, or it is text (by some answer of `is_text_entry`) and not UTF-8.
pub open spec fn fails_at<F: Fn(&str) -> bool>(is_text_entry: F, bytes: Seq<u8>, flags: Seq<bool>) -> bool {
    let k = flags.len();
    &&& prefix_answers(is_text_entry, bytes, flags)
    &&& spec_normalized_items(spec_archive_raw(bytes, flags)) is Some
    &&& spec_zip_entry_count(bytes) matches Some(n) && k < n
    &&& (spec_zip_entry_name(bytes, k) is None || spec_zip_entry_prefix(bytes, k, u64::MAX as nat) is None
        || exists|text: bool| #[trigger] answers(is_text_entry, entry_name(bytes, k), text)
            && spec_normalized_entry(entry_contents(bytes, k), text) is None)
}

/// Reading and normalizing the archive fails: it does not open, or the reading
/// stops at some entry.
pub open spec fn archive_fails<F: Fn(&str) -> bool>(is_text_entry: F, bytes: Seq<u8>) -> bool {
    spec_zip_entry_count(bytes) is None || exists|flags: Seq<bool>| #[trigger] fails_at(is_text_entry, bytes, flags)
}

/// The map that normalizing an archive's entries gives, with the text entries
/// those that `flags` marks; nothing where a text entry is not UTF-8.
pub open spec fn spec_archive_map(bytes: Seq<u8>, flags: Seq<bool>) -> Option<Map<Seq<char>, NormalizedEntryV>> {
    match spec_normalized_items(spec_archive_raw(bytes, flags)) {
        None => None,
        Some(items) => Some(spec_last_wins(items)),
    }
}

/// A list holds, sorted by path, the map that normalizing an archive's entries
/// gives with the text entries those that `flags` marks.
pub open spec fn lists_archive(v: Seq<PathEntryV>, bytes: Seq<u8>, flags: Seq<bool>) -> bool {
    match spec_archive_map(bytes, flags) {
        Some(m) => lists_map(v, m),
        None => false,
    }
}

/// The normalized entries of the archive that the bytes hold, listed by path.
/// `is_text_entry` says, of each entry's path, whether the entry is text; it is
/// called once per entry, in archive order, until the reading stops. An archive,
/// entry name or entry that does not read is an error, and so is a text entry that
/// is not UTF-8.
pub fn normalized_entries<F: Fn(&str) -> bool>(bytes: &[u8], is_text_entry: F) -> (r: Result<Vec<(String, NormalizedEntry)>, String>)
    requires
        forall|path: &str| #[trigger] is_text_entry.requires((path,)),
    ensures
        r matches Ok(v) ==> exists|flags: Seq<bool>| #[trigger] text_answers(is_text_entry, bytes@, flags)
            && lists_archive(normalized_view(v@), bytes@, flags),
        r is Err ==> archive_fails(is_text_entry, bytes@),
{
    let count = zip_entry_count(bytes)?;
    let mut entries: Vec<(String, NormalizedEntry)> = Vec::new();
    let ghost mut flags: Seq<bool> = seq![];
    let ghost mut items: Seq<PathEntryV> = seq![];
    let mut index: usize = 0;
    while index < count
        invariant
            spec_zip_entry_count(bytes@) == Some(count as nat),
            index <= count,
            flags.len() == index,
            forall|path: &str| #[trigger] is_text_entry.requires((path,)),
            prefix_answers(is_text_entry, bytes@, flags),
            spec_normalized_items(spec_archive_raw(bytes@, flags)) == Some(items),
            lists_map(normalized_view(entries@), spec_last_wins(items)),
        decreases count - index,
    {
        let name = match zip_entry_name(bytes, index) {
            Ok(n) => n,
            Err(e) => {
                assert(fails_at(is_text_entry, bytes@, flags));
                return Err(e);
            },
        };
        let data = match zip_entry_prefix(bytes, index, u64::MAX) {
            Ok(d) => d,
            Err(e) => {
                assert(fails_at(is_text_entry, bytes@, flags));
                return Err(e);
            },
        };
        assert(name@ == entry_name(bytes@, index as nat));
        assert(data@ == entry_contents(bytes@, index as nat));
        let path: &str = name.as_str();
        let text = is_text_entry(path);
        assert(answers(is_text_entry, name@, text));
        let ghost x = (name@, data@, text);
        let ghost e = spec_normalized_entry(data@, text);
        let added = add_entry(&mut entries, name, data, text, Ghost(items));
        if added.is_err() {
            assert(answers(is_text_entry, entry_name(bytes@, index as nat), text)
                && spec_normalized_entry(entry_contents(bytes@, index as nat), text) is None);
            assert(fails_at(is_text_entry, bytes@, flags));
            return Err(String::from_str("text fixture entry must be UTF-8"));
        }
        proof {
            let next = flags.push(text);
            assert(spec_archive_raw(bytes@, next).drop_last() =~= spec_archive_raw(bytes@, flags));
            assert(spec_archive_raw(bytes@, next).last() == x);
            assert forall|i: nat| i < next.len() implies #[trigger] spec_zip_entry_name(bytes@, i) is Some
                && spec_zip_entry_prefix(bytes@, i, u64::MAX as nat) is Some by {
                if i < flags.len() {
                    assert(entries_read(bytes@, flags.len()));
                }
            }
            assert forall|i: int| 0 <= i < next.len() implies #[trigger] answers(is_text_entry, entry_name(bytes@, i as nat), next[i]) by {
                if i < flags.len() {
                    assert(answers(is_text_entry, entry_name(bytes@, i as nat), flags[i]));
                }
            }
            flags = next;
            items = items.push((x.0, e.unwrap()));
        }
        index += 1;
    }
    assert(text_answers(is_text_entry, bytes@, flags));
    Ok(entries)
}

/// The entries of the archive that the bytes hold, in archive order: each entry's
/// path, its bytes, and whether `is_text_entry` takes it for text (called once per
/// entry). An archive, entry name or entry that does not read is an error.
pub fn archive_entries<F: Fn(&str) -> bool>(bytes: &[u8], is_text_entry: F) -> (r: Result<Vec<(String, Vec<u8>, bool)>, String>)
    requires
        forall|path: &str| #[trigger] is_text_entry.requires((path,)),
    ensures
        r matches Ok(v) ==> {
            &&& spec_zip_entry_count(bytes@) == Some(v.len() as nat)
            &&& forall|i: int| 0 <= i < v.len() ==> #[trigger] spec_zip_entry_name(bytes@, i as nat) == Some(v[i].0@)
                && spec_zip_entry_prefix(bytes@, i as nat, u64::MAX as nat) == Some(v[i].1@)
                && answers(is_text_entry, v[i].0@, v[i].2)
        },
        r is Err ==> spec_zip_entry_count(bytes@) is None || exists|k: nat| #[trigger] entry_unreadable(bytes@, k),
{
    let count = zip_entry_count(bytes)?;
    let mut entries: Vec<(String, Vec<u8>, bool)> = Vec::new();
    let mut index: usize = 0;
    while index < count
        invariant
            spec_zip_entry_count(bytes@) == Some(count as nat),
            index <= count,
            entries.len() == index,
            forall|path: &str| #[trigger] is_text_entry.requires((path,)),
            forall|i: int| #![trigger entries@[i]] 0 <= i < index ==> spec_zip_entry_name(bytes@, i as nat) == Some(entries@[i].0@)
                && spec_zip_entry_prefix(bytes@, i as nat, u64::MAX as nat) == Some(entries@[i].1@)
                && answers(is_text_entry, entries@[i].0@, entries@[i].2),
        decreases count - index,
    {
        let name = match zip_entry_name(bytes, index) {
            Ok(n) => n,
            Err(e) => {
                assert forall|i: nat| i < index implies #[trigger] spec_zip_entry_name(bytes@, i) is Some
                    && spec_zip_entry_prefix(bytes@, i, u64::MAX as nat) is Some by {
                    let j = i as int;
                    assert(entries@[j] == entries@[j]);
                    assert(j as nat == i);
                }
                assert(entry_unreadable(bytes@, index as nat));
                return Err(e);
            },
        };
        let data = match zip_entry_prefix(bytes, index, u64::MAX) {
            Ok(d) => d,
            Err(e) => {
                assert forall|i: nat| i < index implies #[trigger] spec_zip_entry_name(bytes@, i) is Some
                    && spec_zip_entry_prefix(bytes@, i, u64::MAX as nat) is Some by {
                    let j = i as int;
                    assert(entries@[j] == entries@[j]);
                    assert(j as nat == i);
                }
                assert(entry_unreadable(bytes@, index as nat));
                return Err(e);
            },
        };
        let text = is_text_entry(name.as_str());
        assert(answers(is_text_entry, name@, text));
        entries.push((name, data, text));
        index += 1;
    }
    Ok(entries)
}

/// The entry at index `k` is in the archive, the entries before it read, and its
/// name or its bytes do not read.
pub open spec fn entry_unreadable(bytes: Seq<u8>, k: nat) -> bool {
    &&& spec_zip_entry_count(bytes) matches Some(n) && k < n
    &&& entries_read(bytes, k)
    &&& (spec_zip_entry_name(bytes, k) is None || spec_zip_entry_prefix(bytes, k, u64::MAX as nat) is None)
}

/// The entry at index `k` is in the archive, the names before it read, and its
/// name does not.
pub open spec fn name_unreadable(bytes: Seq<u8>, k: nat) -> bool {
    &&& spec_zip_entry_count(bytes) matches Some(n) && k < n
    &&& forall|i: nat| i < k ==> #[trigger] spec_zip_entry_name(bytes, i) is Some
    &&& spec_zip_entry_name(bytes, k) is None
}

/// The paths of the entries of the archive that the bytes hold, in archive order.
/// An archive or entry name that does not read is an error.
pub fn archive_entry_names(bytes: &[u8]) -> (r: Result<Vec<String>, String>)
    ensures
        r matches Ok(v) ==> {
            &&& spec_zip_entry_count(bytes@) == Some(v.len() as nat)
            &&& forall|i: int| 0 <= i < v.len() ==> #[trigger] spec_zip_entry_name(bytes@, i as nat) == Some(v[i]@)
        },
        r is Err ==> spec_zip_entry_count(bytes@) is None || exists|k: nat| #[trigger] name_unreadable(bytes@, k),
{
    let count = zip_entry_count(bytes)?;
    let mut names: Vec<String> = Vec::new();
    let mut index: usize = 0;
    while index < count
        invariant
            spec_zip_entry_count(bytes@) == Some(count as nat),
            index <= count,
            names.len() == index,
            forall|i: int| #![trigger names@[i]] 0 <= i < index ==> spec_zip_entry_name(bytes@, i as nat) == Some(names@[i]@),
        decreases count - index,
    {
        let name = match zip_entry_name(bytes, index) {
            Ok(n) => n,
            Err(e) => {
                assert forall|i: nat| i < index implies #[trigger] spec_zip_entry_name(bytes@, i) is Some by {
                    let j = i as int;
                    assert(0 <= j < index);
                    assert(spec_zip_entry_name(bytes@, j as nat) == Some(names@[j]@));
                    assert(j as nat == i);
                }
                assert(name_unreadable(bytes@, index as nat));
                return Err(e);
            },
        };
        names.push(name);
        index += 1;
    }
    Ok(names)
}

/// The paths of a list of paths, as a set.
pub open spec fn paths_set(paths: Seq<String>) -> Set<Seq<char>> {
    Set::new(|p: Seq<char>| exists|i: int| 0 <= i < paths.len() && paths[i]@ == p)
}

/// A copy of an entry.
fn copy_entry(e: &NormalizedEntry) -> (r: NormalizedEntry)
    ensures
        r@ == e@,
{
    match e {
        NormalizedEntry::Text(t) => NormalizedEntry::Text(t.clone()),
        NormalizedEntry::BinaryHash(h) => NormalizedEntry::BinaryHash(h.clone()),
    }
}

/// Whether a path is one of the paths.
fn is_listed(paths: &[String], path: &str) -> (b: bool)
    ensures
        b == paths_set(paths@).contains(path@),
{
    let mut i: usize = 0;
    while i < paths.len()
        invariant
            i <= paths.len(),
            forall|j: int| 0 <= j < i ==> paths@[j]@ != path@,
        decreases paths.len() - i,
    {
        if str_eq(paths[i].as_str(), path) {
            return true;
        }
        i += 1;
    }
    false
}

/// The listing without the entries under the given paths.
fn without_paths(
    entries: &Vec<(String, NormalizedEntry)>,
    excluded: &[String],
    Ghost(m): Ghost<Map<Seq<char>, NormalizedEntryV>>,
) -> (r: Vec<(String, NormalizedEntry)>)
    requires
        lists_map(normalized_view(entries@), m),
    ensures
        lists_map(normalized_view(r@), m.remove_keys(paths_set(excluded@))),
{
    let ghost v = normalized_view(entries@);
    let ghost gone = paths_set(excluded@);
    let mut out: Vec<(String, NormalizedEntry)> = Vec::new();
    let mut i: usize = 0;
    while i < entries.len()
        invariant
            i <= entries.len(),
            v == normalized_view(entries@),
            gone == paths_set(excluded@),
            lists_map(v, m),
            lists_map(normalized_view(out@), Map::new(
                |k: Seq<char>| m.contains_key(k) && !gone.contains(k) && exists|j: int| 0 <= j < i && v[j].0 == k,
                |k: Seq<char>| m[k],
            )),
        decreases entries.len() - i,
    {
        let ghost before = normalized_view(out@);
        let ghost m_i = Map::new(
            |k: Seq<char>| m.contains_key(k) && !gone.contains(k) && exists|j: int| 0 <= j < i && v[j].0 == k,
            |k: Seq<char>| m[k],
        );
        let ghost m_next = Map::new(
            |k: Seq<char>| m.contains_key(k) && !gone.contains(k) && exists|j: int| 0 <= j < i + 1 && v[j].0 == k,
            |k: Seq<char>| m[k],
        );
        let ghost x = v[i as int];
        assert(m.contains_key(x.0) && m[x.0] == x.1);
        if !is_listed(excluded, entries[i].0.as_str()) {
            out.push((entries[i].0.clone(), copy_entry(&entries[i].1)));
            let ghost w = normalized_view(out@);
            assert(w =~= before.push(x));
            assert(lists_map(w, m_next)) by {
                assert forall|a: int| 0 <= a < before.len() implies lex_lt(#[trigger] before[a].0, x.0) by {
                    assert(m_i.contains_key(before[a].0));
                    let j = choose|j: int| 0 <= j < i && v[j].0 == before[a].0;
                    assert(lex_lt(v[j].0, v[i as int].0));
                }
                assert forall|a: int, b: int| 0 <= a < b < w.len() implies lex_lt(#[trigger] w[a].0, #[trigger] w[b].0) by {
                    if b < before.len() {
                        assert(lex_lt(before[a].0, before[b].0));
                    } else {
                        assert(w[a] == before[a]);
                    }
                }
                assert forall|a: int| 0 <= a < w.len() implies #[trigger] m_next.contains_key(w[a].0) && m_next[w[a].0] == w[a].1 by {
                    if a < before.len() {
                        assert(w[a] == before[a]);
                        assert(m_i.contains_key(before[a].0));
                        let j = choose|j: int| 0 <= j < i && v[j].0 == before[a].0;
                        assert(0 <= j < i + 1 && v[j].0 == w[a].0);
                    } else {
                        assert(w[a] == x);
                        assert(0 <= i < i + 1 && v[i as int].0 == w[a].0);
                    }
                }
                assert forall|k: Seq<char>| #[trigger] m_next.contains_key(k) implies exists|a: int| 0 <= a < w.len() && w[a].0 == k by {
                    let j = choose|j: int| 0 <= j < i + 1 && v[j].0 == k;
                    if j < i {
                        assert(m_i.contains_key(k));
                        let a = choose|a: int| 0 <= a < before.len() && before[a].0 == k;
                        assert(w[a].0 == k);
                    } else {
                        assert(w[before.len() as int].0 == k);
                    }
                }
            }
        } else {
            assert(m_next =~= m_i) by {
                assert forall|k: Seq<char>| m_next.contains_key(k) implies m_i.contains_key(k) by {
                    let j = choose|j: int| 0 <= j < i + 1 && v[j].0 == k;
                    if j == i {
                        assert(gone.contains(k));
                    }
                }
            }
        }
        i += 1;
    }
    let ghost m_end = Map::new(
        |k: Seq<char>| m.contains_key(k) && !gone.contains(k) && exists|j: int| 0 <= j < i && v[j].0 == k,
        |k: Seq<char>| m[k],
    );
    assert(m_end =~= m.remove_keys(gone)) by {
        assert forall|k: Seq<char>| m.remove_keys(gone).contains_key(k) implies m_end.contains_key(k) by {
            assert(m.contains_key(k));
        }
    }
    out
}

/// The normalized entries of the archive that the bytes hold, as
/// `normalized_entries` lists them, without those under the excluded paths.
pub fn filtered_normalized_entries<F: Fn(&str) -> bool>(
    bytes: &[u8],
    is_text_entry: F,
    excluded_paths: &[String],
) -> (r: Result<Vec<(String, NormalizedEntry)>, String>)
    requires
        forall|path: &str| #[trigger] is_text_entry.requires((path,)),
    ensures
        r matches Ok(v) ==> exists|flags: Seq<bool>| #[trigger] text_answers(is_text_entry, bytes@, flags)
            && lists_archive_without(normalized_view(v@), bytes@, flags, paths_set(excluded_paths@)),
        r is Err ==> archive_fails(is_text_entry, bytes@),
{
    let entries = normalized_entries(bytes, is_text_entry)?;
    let ghost flags = choose|flags: Seq<bool>| #[trigger] text_answers(is_text_entry, bytes@, flags)
        && lists_archive(normalized_view(entries@), bytes@, flags);
    let ghost m = spec_archive_map(bytes@, flags).unwrap();
    let kept = without_paths(&entries, excluded_paths, Ghost(m));
    assert(text_answers(is_text_entry, bytes@, flags));
    Ok(kept)
}

/// A list holds, sorted by path, the map that normalizing an archive's entries
/// gives (the text entries those that `flags` marks) without the given paths.
pub open spec fn lists_archive_without(v: Seq<PathEntryV>, bytes: Seq<u8>, flags: Seq<bool>, gone: Set<Seq<char>>) -> bool {
    match spec_archive_map(bytes, flags) {
        Some(m) => lists_map(v, m.remove_keys(gone)),
        None => false,
    }
}

/// Whether two entries are the same.
fn same_entry(a: &NormalizedEntry, b: &NormalizedEntry) -> (r: bool)
    ensures
        r == (a@ == b@),
{
    match (a, b) {
        (NormalizedEntry::Text(x), NormalizedEntry::Text(y)) => str_eq(x.as_str(), y.as_str()),
        (NormalizedEntry::BinaryHash(x), NormalizedEntry::BinaryHash(y)) => str_eq(x.as_str(), y.as_str()),
        _ => false,
    }
}

/// Whether two listings hold the same paths and entries.
fn same_listing(a: &Vec<(String, NormalizedEntry)>, b: &Vec<(String, NormalizedEntry)>) -> (r: bool)
    ensures
        r == (normalized_view(a@) == normalized_view(b@)),
{
    let ghost va = normalized_view(a@);
    let ghost vb = normalized_view(b@);
    if a.len() != b.len() {
        assert(va.len() != vb.len());
        return false;
    }
    let mut i: usize = 0;
    while i < a.len()
        invariant
            i <= a.len() == b.len(),
            va == normalized_view(a@),
            vb == normalized_view(b@),
            forall|j: int| 0 <= j < i ==> va[j] == vb[j],
        decreases a.len() - i,
    {
        if !str_eq(a[i].0.as_str(), b[i].0.as_str()) || !same_entry(&a[i].1, &b[i].1) {
            assert(va[i as int] != vb[i as int]);
            return false;
        }
        i += 1;
    }
    assert(va =~= vb);
    true
}

/// Two maps that one list holds are the same map.
proof fn lemma_listed_maps_equal(v: Seq<PathEntryV>, m1: Map<Seq<char>, NormalizedEntryV>, m2: Map<Seq<char>, NormalizedEntryV>)
    requires
        lists_map(v, m1),
        lists_map(v, m2),
    ensures
        m1 == m2,
{
    assert forall|k: Seq<char>| m1.contains_key(k) implies m2.contains_key(k) && m1[k] == m2[k] by {
        let i = choose|i: int| 0 <= i < v.len() && v[i].0 == k;
        assert(m2.contains_key(v[i].0));
    }
    assert forall|k: Seq<char>| m2.contains_key(k) implies m1.contains_key(k) by {
        let i = choose|i: int| 0 <= i < v.len() && v[i].0 == k;
        assert(m1.contains_key(v[i].0));
    }
    assert(m1 =~= m2);
}

/// Whether two lists hold the same map: exactly when the lists are the same.
pub proof fn lemma_listings_equal_iff(
    v1: Seq<PathEntryV>,
    v2: Seq<PathEntryV>,
    m1: Map<Seq<char>, NormalizedEntryV>,
    m2: Map<Seq<char>, NormalizedEntryV>,
)
    requires
        lists_map(v1, m1),
        lists_map(v2, m2),
    ensures
        (v1 == v2) == (m1 == m2),
{
    if v1 == v2 {
        lemma_listed_maps_equal(v1, m1, m2);
    }
    if m1 == m2 {
        lemma_listing_unique(v1, v2, m1);
    }
}

/// Whether the archives that two byte strings hold have the same normalized
/// entries: the same paths, each with the same normalized text or digest.
/// `is_text_entry` is called once per entry of each archive.
pub fn normalized_archives_equivalent<F: Fn(&str) -> bool + Copy>(
    left: &[u8],
    right: &[u8],
    is_text_entry: F,
) -> (r: Result<bool, String>)
    requires
        forall|path: &str| #[trigger] is_text_entry.requires((path,)),
    ensures
        r matches Ok(same) ==> exists|left_flags: Seq<bool>, right_flags: Seq<bool>|
            #![trigger text_answers(is_text_entry, left@, left_flags), text_answers(is_text_entry, right@, right_flags)]
            text_answers(is_text_entry, left@, left_flags) && text_answers(is_text_entry, right@, right_flags)
                && same_archive_maps(left@, left_flags, right@, right_flags, same),
        r is Err ==> archive_fails(is_text_entry, left@) || archive_fails(is_text_entry, right@),
{
    let left_entries = normalized_entries(left, is_text_entry)?;
    let right_entries = normalized_entries(right, is_text_entry)?;
    let same = same_listing(&left_entries, &right_entries);
    proof {
        let lf = choose|flags: Seq<bool>| #[trigger] text_answers(is_text_entry, left@, flags)
            && lists_archive(normalized_view(left_entries@), left@, flags);
        let rf = choose|flags: Seq<bool>| #[trigger] text_answers(is_text_entry, right@, flags)
            && lists_archive(normalized_view(right_entries@), right@, flags);
        lemma_listings_equal_iff(
            normalized_view(left_entries@),
            normalized_view(right_entries@),
            spec_archive_map(left@, lf).unwrap(),
            spec_archive_map(right@, rf).unwrap(),
        );
        assert(text_answers(is_text_entry, left@, lf));
        assert(text_answers(is_text_entry, right@, rf));
        assert(same_archive_maps(left@, lf, right@, rf, same));
    }
    Ok(same)
}

/// Both archives normalize (with the text entries those the flags mark), and
/// `same` says whether they give the same map.
pub open spec fn same_archive_maps(left: Seq<u8>, left_flags: Seq<bool>, right: Seq<u8>, right_flags: Seq<bool>, same: bool) -> bool {
    match (spec_archive_map(left, left_flags), spec_archive_map(right, right_flags)) {
        (Some(ml), Some(mr)) => same == (ml == mr),
        _ => false,
    }
}

/// The UTF-8 bytes of a text, appended.
fn append_utf8(out: &mut Vec<u8>, text: &str)
    ensures
        final(out)@ == old(out)@ + vstd::utf8::encode_utf8(text@),
{
    let bytes = text.as_bytes();
    let ghost start = out@;
    let mut i: usize = 0;
    while i < bytes.len()
        invariant
            i <= bytes.len(),
            bytes@ == vstd::utf8::encode_utf8(text@),
            out@ == start + bytes@.take(i as int),
        decreases bytes.len() - i,
    {
        out.push(bytes[i]);
        i += 1;
        assert(out@ =~= start + bytes@.take(i as int));
    }
    assert(bytes@.take(i as int) == bytes@);
}

/// The bytes that a listing's digest is taken over: for each entry its path, a
/// zero byte, a zero byte then the text (or a one byte then the digest), and a
/// zero byte.
pub open spec fn spec_listing_bytes(v: Seq<PathEntryV>) -> Seq<u8>
    decreases v.len(),
{
    if v.len() == 0 {
        seq![]
    } else {
        let (path, entry) = v.last();
        let body = match entry {
            NormalizedEntryV::Text(t) => seq![0u8] + vstd::utf8::encode_utf8(t),
            NormalizedEntryV::BinaryHash(h) => seq![1u8] + vstd::utf8::encode_utf8(h),
        };
        spec_listing_bytes(v.drop_last()) + vstd::utf8::encode_utf8(path) + seq![0u8] + body + seq![0u8]
    }
}

/// The SHA-256 digest of a listing, as lowercase hexadecimal text.
pub fn hash_entries(entries: &Vec<(String, NormalizedEntry)>) -> (r: String)
    ensures
        r@ == spec_sha256_hex(spec_listing_bytes(normalized_view(entries@))),
{
    let ghost v = normalized_view(entries@);
    let mut bytes: Vec<u8> = Vec::new();
    let mut i: usize = 0;
    while i < entries.len()
        invariant
            i <= entries.len(),
            v == normalized_view(entries@),
            bytes@ == spec_listing_bytes(v.take(i as int)),
        decreases entries.len() - i,
    {
        let ghost before = bytes@;
        append_utf8(&mut bytes, entries[i].0.as_str());
        bytes.push(0u8);
        match &entries[i].1 {
            NormalizedEntry::Text(t) => {
                bytes.push(0u8);
                append_utf8(&mut bytes, t.as_str());
            },
            NormalizedEntry::BinaryHash(h) => {
                bytes.push(1u8);
                append_utf8(&mut bytes, h.as_str());
            },
        }
        bytes.push(0u8);
        assert(v.take(i + 1).drop_last() =~= v.take(i as int));
        assert(v.take(i + 1).last() == v[i as int]);
        let ghost body = match v[i as int].1 {
            NormalizedEntryV::Text(t) => seq![0u8] + vstd::utf8::encode_utf8(t),
            NormalizedEntryV::BinaryHash(h) => seq![1u8] + vstd::utf8::encode_utf8(h),
        };
        assert(bytes@ =~= before + vstd::utf8::encode_utf8(v[i as int].0) + seq![0u8] + body + seq![0u8]);
        i += 1;
    }
    assert(v.take(i as int) == v);
    sha256_hex(bytes.as_slice())
}

/// `is_text_entry` answers each path one way.
pub open spec fn answers_one_way<F: Fn(&str) -> bool>(is_text_entry: F) -> bool {
    forall|s1: &str, s2: &str, b1: bool, b2: bool|
        s1@ == s2@ && #[trigger] is_text_entry.ensures((s1,), b1) && #[trigger] is_text_entry.ensures((s2,), b2)
            ==> b1 == b2
}

/// What `normalized_entries` returning `Ok(v)` on the bytes promises.
pub open spec fn normalizes_to<F: Fn(&str) -> bool>(is_text_entry: F, bytes: Seq<u8>, v: Seq<PathEntryV>) -> bool {
    exists|flags: Seq<bool>| #[trigger] text_answers(is_text_entry, bytes, flags) && lists_archive(v, bytes, flags)
}

/// What `normalized_archives_equivalent` returning `Ok(same)` promises.
pub open spec fn equivalence_answer<F: Fn(&str) -> bool>(is_text_entry: F, left: Seq<u8>, right: Seq<u8>, same: bool) -> bool {
    exists|left_flags: Seq<bool>, right_flags: Seq<bool>|
        #![trigger text_answers(is_text_entry, left, left_flags), text_answers(is_text_entry, right, right_flags)]
        text_answers(is_text_entry, left, left_flags) && text_answers(is_text_entry, right, right_flags)
            && same_archive_maps(left, left_flags, right, right_flags, same)
}

proof fn lemma_one_way_flags<F: Fn(&str) -> bool>(is_text_entry: F, bytes: Seq<u8>, f1: Seq<bool>, f2: Seq<bool>)
    requires
        answers_one_way(is_text_entry),
        text_answers(is_text_entry, bytes, f1),
        text_answers(is_text_entry, bytes, f2),
    ensures
        f1 == f2,
{
    assert forall|i: int| 0 <= i < f1.len() implies f1[i] == f2[i] by {
        assert(answers(is_text_entry, entry_name(bytes, i as nat), f1[i]));
        assert(answers(is_text_entry, entry_name(bytes, i as nat), f2[i]));
        let s1 = choose|s: &str| s@ == entry_name(bytes, i as nat) && #[trigger] is_text_entry.ensures((s,), f1[i]);
        let s2 = choose|s: &str| s@ == entry_name(bytes, i as nat) && #[trigger] is_text_entry.ensures((s,), f2[i]);
        assert(is_text_entry.ensures((s1,), f1[i]) && is_text_entry.ensures((s2,), f2[i]));
    }
    assert(f1 =~= f2);
}

/// With an `is_text_entry` that answers each path one way, two archives are
/// equivalent exactly when their normalized listings are equal; so an archive is
/// equivalent to itself, and equivalence is symmetric.
pub proof fn law_equivalent_iff_same_listing<F: Fn(&str) -> bool>(
    is_text_entry: F,
    left: Seq<u8>,
    right: Seq<u8>,
    left_entries: Seq<PathEntryV>,
    right_entries: Seq<PathEntryV>,
    same: bool,
    same_reversed: bool,
)
    requires
        answers_one_way(is_text_entry),
        normalizes_to(is_text_entry, left, left_entries),
        normalizes_to(is_text_entry, right, right_entries),
        equivalence_answer(is_text_entry, left, right, same),
        equivalence_answer(is_text_entry, right, left, same_reversed),
    ensures
        same == (left_entries == right_entries),
        same_reversed == same,
        left == right ==> same,
{
    let lf = choose|flags: Seq<bool>| #[trigger] text_answers(is_text_entry, left, flags) && lists_archive(left_entries, left, flags);
    let rf = choose|flags: Seq<bool>| #[trigger] text_answers(is_text_entry, right, flags) && lists_archive(right_entries, right, flags);
    let (a, b) = choose|a: Seq<bool>, b: Seq<bool>|
        #![trigger text_answers(is_text_entry, left, a), text_answers(is_text_entry, right, b)]
        text_answers(is_text_entry, left, a) && text_answers(is_text_entry, right, b)
            && same_archive_maps(left, a, right, b, same);
    let (c, d) = choose|c: Seq<bool>, d: Seq<bool>|
        #![trigger text_answers(is_text_entry, right, c), text_answers(is_text_entry, left, d)]
        text_answers(is_text_entry, right, c) && text_answers(is_text_entry, left, d)
            && same_archive_maps(right, c, left, d, same_reversed);
    lemma_one_way_flags(is_text_entry, left, lf, a);
    lemma_one_way_flags(is_text_entry, right, rf, b);
    lemma_one_way_flags(is_text_entry, right, rf, c);
    lemma_one_way_flags(is_text_entry, left, lf, d);
    lemma_listings_equal_iff(
        left_entries,
        right_entries,
        spec_archive_map(left, lf).unwrap(),
        spec_archive_map(right, rf).unwrap(),
    );
}

/// With an `is_text_entry` that answers each path one way, an archive is
/// equivalent to itself.
pub proof fn law_equivalence_reflexive<F: Fn(&str) -> bool>(is_text_entry: F, archive: Seq<u8>, same: bool)
    requires
        answers_one_way(is_text_entry),
        equivalence_answer(is_text_entry, archive, archive, same),
    ensures
        same,
{
    let (a, b) = choose|a: Seq<bool>, b: Seq<bool>|
        #![trigger text_answers(is_text_entry, archive, a), text_answers(is_text_entry, archive, b)]
        text_answers(is_text_entry, archive, a) && text_answers(is_text_entry, archive, b)
            && same_archive_maps(archive, a, archive, b, same);
    lemma_one_way_flags(is_text_entry, archive, a, b);
}

/// With an `is_text_entry` that answers each path one way, comparing two archives
/// gives the same answer in either order.
pub proof fn law_equivalence_symmetric<F: Fn(&str) -> bool>(
    is_text_entry: F,
    left: Seq<u8>,
    right: Seq<u8>,
    same: bool,
    same_reversed: bool,
)
    requires
        answers_one_way(is_text_entry),
        equivalence_answer(is_text_entry, left, right, same),
        equivalence_answer(is_text_entry, right, left, same_reversed),
    ensures
        same == same_reversed,
{
    let (a, b) = choose|a: Seq<bool>, b: Seq<bool>|
        #![trigger text_answers(is_text_entry, left, a), text_answers(is_text_entry, right, b)]
        text_answers(is_text_entry, left, a) && text_answers(is_text_entry, right, b)
            && same_archive_maps(left, a, right, b, same);
    let (c, d) = choose|c: Seq<bool>, d: Seq<bool>|
        #![trigger text_answers(is_text_entry, right, c), text_answers(is_text_entry, left, d)]
        text_answers(is_text_entry, right, c) && text_answers(is_text_entry, left, d)
            && same_archive_maps(right, c, left, d, same_reversed);
    lemma_one_way_flags(is_text_entry, left, a, d);
    lemma_one_way_flags(is_text_entry, right, b, c);
}

} // verus!
