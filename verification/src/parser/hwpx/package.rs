//! Reading an HWPX package: its three required parts, checked for the limits that
//! keep a hostile archive from exhausting memory.
use vstd::prelude::*;
use crate::error::{CoreRsError, ErrorKind, ErrorV, err};
use crate::generators::hwpx::items::{join_strings, spec_join, strings_view};
use crate::utils::text::{append_decimal, decimal, owned, spec_starts_with, starts_with, str_eq};
use crate::utils::zip_reader::{
    spec_zip_entry_count, spec_zip_entry_name, spec_zip_entry_prefix, utf8_string, zip_entry_count,
    zip_entry_name, zip_entry_prefix,
};

verus! {

pub const MAX_ARCHIVE_ENTRIES: usize = 64;
pub const MAX_ENTRY_BYTES: usize = 8388608;
pub const MAX_TOTAL_ARCHIVE_BYTES: usize = 33554432;

/// The three parts of a package that parsing reads.
#[derive(Debug)]
pub struct LoadedHwpx {
    pub content_hpf: String,
    pub header_xml: String,
    pub section_xml: String,
}

pub struct LoadedV {
    pub content_hpf: Seq<char>,
    pub header_xml: Seq<char>,
    pub section_xml: Seq<char>,
}

impl View for LoadedHwpx {
    type V = LoadedV;

    open spec fn view(&self) -> LoadedV {
        LoadedV { content_hpf: self.content_hpf@, header_xml: self.header_xml@, section_xml: self.section_xml@ }
    }
}

/// What reading the entries gathers: the names seen, the names of further
/// sections, the bytes of required parts read so far, and the three parts.
pub struct ScanV {
    pub seen: Seq<Seq<char>>,
    pub extra: Seq<Seq<char>>,
    pub total: nat,
    pub content: Option<Seq<char>>,
    pub header: Option<Seq<char>>,
    pub section: Option<Seq<char>>,
}

/// How reading a package fails: with a stated error, because a required part is
/// not UTF-8 (the message then names the part and gives the decoder's reason), or
/// because the archive does not open, an entry does not open, or a part's bytes
/// cannot be read.
pub enum LoadErrorV {
    Stated(ErrorV),
    NotUtf8(Seq<char>),
    NotOpened,
    EntryUnreadable,
    PartUnreadable,
}

pub open spec fn invalid_hwpx(msg: Seq<char>) -> ErrorV {
    err(ErrorKind::InvalidHwpx, msg)
}

pub open spec fn is_required(name: Seq<char>) -> bool {
    name == "Contents/content.hpf"@ || name == "Contents/header.xml"@ || name == "Contents/section0.xml"@
}

/// One entry: an entry that cannot be read is a read failure; a repeated name is refused; a further section is noted; a required
/// part is read, within the size limits, as UTF-8 text; anything else is skipped.
pub open spec fn spec_scan_entry(bytes: Seq<u8>, st: ScanV, i: nat) -> Result<ScanV, LoadErrorV> {
    match spec_zip_entry_name(bytes, i) {
        None => Err(LoadErrorV::EntryUnreadable),
        Some(name) => if st.seen.contains(name) {
            Err(LoadErrorV::Stated(invalid_hwpx("HWPX archive contains duplicate entry: "@ + name)))
        } else {
            let seen = st.seen.push(name);
            if spec_starts_with(name, "Contents/section"@) && name != "Contents/section0.xml"@ {
                Ok(ScanV { seen, extra: st.extra.push(name), ..st })
            } else if !is_required(name) {
                Ok(ScanV { seen, ..st })
            } else {
                match spec_zip_entry_prefix(bytes, i, (MAX_ENTRY_BYTES + 1) as nat) {
                    None => Err(LoadErrorV::PartUnreadable),
                    Some(data) => if data.len() > MAX_ENTRY_BYTES {
                        Err(LoadErrorV::Stated(invalid_hwpx(
                            "HWPX archive entry "@ + name + " exceeds maximum supported size of 8388608 bytes"@,
                        )))
                    } else if st.total + data.len() > MAX_TOTAL_ARCHIVE_BYTES {
                        Err(LoadErrorV::Stated(invalid_hwpx(
                            "required HWPX contents exceed maximum supported size of 33554432 bytes"@,
                        )))
                    } else if !vstd::utf8::valid_utf8(data) {
                        Err(LoadErrorV::NotUtf8(name))
                    } else {
                        let text = vstd::utf8::decode_utf8(data);
                        let total = st.total + data.len();
                        if name == "Contents/content.hpf"@ {
                            Ok(ScanV { seen, total, content: Some(text), ..st })
                        } else if name == "Contents/header.xml"@ {
                            Ok(ScanV { seen, total, header: Some(text), ..st })
                        } else {
                            Ok(ScanV { seen, total, section: Some(text), ..st })
                        }
                    },
                }
            }
        },
    }
}

/// The entries before index `k`, read in order; the first error stops the reading.
pub open spec fn spec_scan(bytes: Seq<u8>, k: nat) -> Result<ScanV, LoadErrorV>
    decreases k,
{
    if k == 0 {
        Ok(ScanV { seen: seq![], extra: seq![], total: 0, content: None, header: None, section: None })
    } else {
        match spec_scan(bytes, (k - 1) as nat) {
            Ok(st) => spec_scan_entry(bytes, st, (k - 1) as nat),
            Err(e) => Err(e),
        }
    }
}

/// The package's parts: an archive that does not open is a read failure; one of more than 64 entries is refused, then the
/// entries are read; further sections are refused, and each required part must be
/// there.
pub open spec fn spec_load(bytes: Seq<u8>) -> Result<LoadedV, LoadErrorV> {
    match spec_zip_entry_count(bytes) {
        None => Err(LoadErrorV::NotOpened),
        Some(count) => spec_load_entries(bytes, count),
    }
}

/// The package's parts from an archive of `count` entries.
pub open spec fn spec_load_entries(bytes: Seq<u8>, count: nat) -> Result<LoadedV, LoadErrorV> {
    if count > MAX_ARCHIVE_ENTRIES {
        Err(LoadErrorV::Stated(invalid_hwpx("HWPX archive contains too many entries: "@ + decimal(count))))
    } else {
        match spec_scan(bytes, count) {
            Err(e) => Err(e),
            Ok(st) => if st.extra.len() > 0 {
                Err(LoadErrorV::Stated(err(
                    ErrorKind::UnsupportedFeature,
                    "HWPX parser does not support multiple sections: "@ + spec_join(st.extra, ", "@),
                )))
            } else {
                match (st.content, st.header, st.section) {
                    (None, _, _) => Err(LoadErrorV::Stated(invalid_hwpx("missing required HWPX entry: Contents/content.hpf"@))),
                    (_, None, _) => Err(LoadErrorV::Stated(invalid_hwpx("missing required HWPX entry: Contents/header.xml"@))),
                    (_, _, None) => Err(LoadErrorV::Stated(invalid_hwpx("missing required HWPX entry: Contents/section0.xml"@))),
                    (Some(c), Some(h), Some(s)) => Ok(LoadedV { content_hpf: c, header_xml: h, section_xml: s }),
                }
            },
        }
    }
}

/// Whether an error is the one that a load error describes.
pub open spec fn error_fits(le: LoadErrorV, e: ErrorV) -> bool {
    match le {
        LoadErrorV::Stated(x) => e == x,
        LoadErrorV::NotUtf8(name) => e.kind == ErrorKind::InvalidHwpx && spec_starts_with(e.detail, name + " is not valid UTF-8 text: "@),
        LoadErrorV::NotOpened => e.kind == ErrorKind::InvalidHwpx
            && spec_starts_with(e.detail, "failed to open HWPX archive: "@),
        LoadErrorV::EntryUnreadable => e.kind == ErrorKind::InvalidHwpx
            && spec_starts_with(e.detail, "failed to read HWPX archive entry "@),
        LoadErrorV::PartUnreadable => e.kind == ErrorKind::Io,
    }
}

proof fn lemma_scan_err(bytes: Seq<u8>, k: nat, n: nat)
    requires
        k <= n,
        spec_scan(bytes, k) is Err,
    ensures
        spec_scan(bytes, n) == spec_scan(bytes, k),
    decreases n - k,
{
    if k < n {
        lemma_scan_err(bytes, k, (n - 1) as nat);
    }
}

fn contains_name(names: &Vec<String>, name: &str) -> (b: bool)
    ensures
        b == strings_view(names@).contains(name@),
{
    let mut i: usize = 0;
    while i < names.len()
        invariant
            i <= names.len(),
            forall|k: int| 0 <= k < i ==> names@[k]@ != name@,
        decreases names.len() - i,
    {
        if str_eq(names[i].as_str(), name) {
            assert(strings_view(names@)[i as int] == name@);
            return true;
        }
        i += 1;
    }
    assert forall|k: int| 0 <= k < strings_view(names@).len() implies strings_view(names@)[k] != name@ by {
        assert(strings_view(names@)[k] == names@[k]@);
    }
    false
}

pub open spec fn opt_text(o: Option<String>) -> Option<Seq<char>> {
    match o {
        Some(s) => Some(s@),
        None => None,
    }
}

/// Reads the three required parts of an HWPX package. A stated failure gives its
/// error; a part that is not UTF-8 gives an error that names it; a failed read of
/// the archive gives a read error.
pub fn load_hwpx_package(bytes: &[u8]) -> (r: Result<LoadedHwpx, CoreRsError>)
    ensures
        match r {
            Ok(p) => spec_load(bytes@) == Ok::<LoadedV, LoadErrorV>(p@),
            Err(e) => spec_load(bytes@) matches Err(le) && error_fits(le, e@),
        },
        bytes@.len() < 22 ==> (r matches Err(e) && error_fits(LoadErrorV::NotOpened, e@)),
{
    let count = match zip_entry_count(bytes) {
        Ok(n) => n,
        Err(message) => {
            let mut m = owned("failed to open HWPX archive: ");
            m.append(message.as_str());
            assert(m@.subrange(0, "failed to open HWPX archive: "@.len() as int) =~= "failed to open HWPX archive: "@);
            return Err(CoreRsError::new(ErrorKind::InvalidHwpx, m));
        },
    };
    if count > MAX_ARCHIVE_ENTRIES {
        let mut m = owned("HWPX archive contains too many entries: ");
        append_decimal(&mut m, count as u64);
        let e = CoreRsError::new(ErrorKind::InvalidHwpx, m);
        assert(spec_load(bytes@) == Err::<LoadedV, LoadErrorV>(LoadErrorV::Stated(e@)));
        return Err(e);
    }
    let mut seen: Vec<String> = Vec::new();
    let mut extra: Vec<String> = Vec::new();
    let mut total: usize = 0;
    let mut content: Option<String> = None;
    let mut header: Option<String> = None;
    let mut section: Option<String> = None;
    let mut index: usize = 0;
    assert(strings_view(seen@) =~= Seq::<Seq<char>>::empty());
    assert(strings_view(extra@) =~= Seq::<Seq<char>>::empty());
    while index < count
        invariant
            index <= count,
            spec_zip_entry_count(bytes@) == Some(count as nat),
            bytes@.len() >= 22,
            count <= MAX_ARCHIVE_ENTRIES,
            total <= MAX_TOTAL_ARCHIVE_BYTES,
            spec_scan(bytes@, index as nat) == Ok::<ScanV, LoadErrorV>(ScanV {
                seen: strings_view(seen@),
                extra: strings_view(extra@),
                total: total as nat,
                content: opt_text(content),
                header: opt_text(header),
                section: opt_text(section),
            }),
        decreases count - index,
    {
        let name = match zip_entry_name(bytes, index) {
            Ok(n) => n,
            Err(message) => {
                let mut m = owned("failed to read HWPX archive entry ");
                append_decimal(&mut m, index as u64);
                m.append(": ");
                m.append(message.as_str());
                assert(m@.subrange(0, "failed to read HWPX archive entry "@.len() as int) =~= "failed to read HWPX archive entry "@);
                let e = CoreRsError::new(ErrorKind::InvalidHwpx, m);
                proof {
                    let st = spec_scan(bytes@, index as nat)->Ok_0;
                    assert(spec_scan(bytes@, (index + 1) as nat) == spec_scan_entry(bytes@, st, index as nat));
                    lemma_scan_err(bytes@, (index + 1) as nat, count as nat);
                }
                return Err(e);
            },
        };
        let ghost st = spec_scan(bytes@, index as nat)->Ok_0;
        assert(spec_scan(bytes@, (index + 1) as nat) == spec_scan_entry(bytes@, st, index as nat));
        if contains_name(&seen, name.as_str()) {
            let mut m = owned("HWPX archive contains duplicate entry: ");
            m.append(name.as_str());
            proof { lemma_scan_err(bytes@, (index + 1) as nat, count as nat); }
            return Err(CoreRsError::new(ErrorKind::InvalidHwpx, m));
        }
        let ghost seen_before = strings_view(seen@);
        seen.push(name.clone());
        assert(strings_view(seen@) =~= seen_before.push(name@));
        if starts_with(name.as_str(), "Contents/section") && !str_eq(name.as_str(), "Contents/section0.xml") {
            let ghost extra_before = strings_view(extra@);
            extra.push(name);
            assert(strings_view(extra@) =~= extra_before.push(name@));
            assert(spec_scan(bytes@, (index + 1) as nat) == Ok::<ScanV, LoadErrorV>(ScanV {
                seen: strings_view(seen@),
                extra: strings_view(extra@),
                total: total as nat,
                content: opt_text(content),
                header: opt_text(header),
                section: opt_text(section),
            }));
            index += 1;
            continue;
        }
        let is_content = str_eq(name.as_str(), "Contents/content.hpf");
        let is_header = str_eq(name.as_str(), "Contents/header.xml");
        let is_section = str_eq(name.as_str(), "Contents/section0.xml");
        if !is_content && !is_header && !is_section {
            assert(spec_scan(bytes@, (index + 1) as nat) == Ok::<ScanV, LoadErrorV>(ScanV {
                seen: strings_view(seen@),
                extra: strings_view(extra@),
                total: total as nat,
                content: opt_text(content),
                header: opt_text(header),
                section: opt_text(section),
            }));
            index += 1;
            continue;
        }
        let data = match zip_entry_prefix(bytes, index, (MAX_ENTRY_BYTES + 1) as u64) {
            Ok(d) => d,
            Err(message) => {
                let e = CoreRsError::new(ErrorKind::Io, message);
                proof {
                    lemma_scan_err(bytes@, (index + 1) as nat, count as nat);
                }
                return Err(e);
            },
        };
        if data.len() > MAX_ENTRY_BYTES {
            let mut m = owned("HWPX archive entry ");
            m.append(name.as_str());
            m.append(" exceeds maximum supported size of 8388608 bytes");
            proof { lemma_scan_err(bytes@, (index + 1) as nat, count as nat); }
            return Err(CoreRsError::new(ErrorKind::InvalidHwpx, m));
        }
        if total + data.len() > MAX_TOTAL_ARCHIVE_BYTES {
            proof { lemma_scan_err(bytes@, (index + 1) as nat, count as nat); }
            return Err(CoreRsError::from_str_detail(
                ErrorKind::InvalidHwpx,
                "required HWPX contents exceed maximum supported size of 33554432 bytes",
            ));
        }
        total = total + data.len();
        let text = match utf8_string(data) {
            Ok(t) => t,
            Err(message) => {
                let mut m = owned(name.as_str());
                m.append(" is not valid UTF-8 text: ");
                m.append(message.as_str());
                proof {
                    lemma_scan_err(bytes@, (index + 1) as nat, count as nat);
                    let p = name@ + " is not valid UTF-8 text: "@;
                    assert(m@.subrange(0, p.len() as int) =~= p);
                }
                return Err(CoreRsError::new(ErrorKind::InvalidHwpx, m));
            },
        };
        if is_content {
            content = Some(text);
        } else if is_header {
            header = Some(text);
        } else {
            section = Some(text);
        }
        assert(spec_scan(bytes@, (index + 1) as nat) == Ok::<ScanV, LoadErrorV>(ScanV {
            seen: strings_view(seen@),
            extra: strings_view(extra@),
            total: total as nat,
            content: opt_text(content),
            header: opt_text(header),
            section: opt_text(section),
        }));
        index += 1;
    }
    if extra.len() > 0 {
        let joined = join_strings(&extra, ", ");
        let mut m = owned("HWPX parser does not support multiple sections: ");
        m.append(joined.as_str());
        return Err(CoreRsError::new(ErrorKind::UnsupportedFeature, m));
    }
    match (content, header, section) {
        (None, _, _) => Err(CoreRsError::from_str_detail(ErrorKind::InvalidHwpx, "missing required HWPX entry: Contents/content.hpf")),
        (_, None, _) => Err(CoreRsError::from_str_detail(ErrorKind::InvalidHwpx, "missing required HWPX entry: Contents/header.xml")),
        (_, _, None) => Err(CoreRsError::from_str_detail(ErrorKind::InvalidHwpx, "missing required HWPX entry: Contents/section0.xml")),
        (Some(c), Some(h), Some(s)) => Ok(LoadedHwpx { content_hpf: c, header_xml: h, section_xml: s }),
    }
}

} // verus!
