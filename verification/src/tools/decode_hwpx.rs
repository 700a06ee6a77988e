//! The decisions of the HWPX inspection tool: its arguments, where archive entries
//! may be extracted, and how entries are shown on a console.
use vstd::prelude::*;
use crate::utils::text::{chars_of, ends_with, owned, push_char, spec_ends_with, starts_with, str_eq, substring};

verus! {

/// The tool's options.
#[derive(Debug, PartialEq, Eq)]
pub struct CliOptions {
    pub input_path: String,
    pub output_dir: Option<String>,
    pub parse_semantics: bool,
}

pub struct CliOptionsV {
    pub input_path: Seq<char>,
    pub output_dir: Option<Seq<char>>,
    pub parse_semantics: bool,
}

impl View for CliOptions {
    type V = CliOptionsV;

    open spec fn view(&self) -> CliOptionsV {
        CliOptionsV {
            input_path: self.input_path@,
            output_dir: match self.output_dir {
                Some(d) => Some(d@),
                None => None,
            },
            parse_semantics: self.parse_semantics,
        }
    }
}

/// The most bytes of one entry shown on the console.
pub const MAX_CONSOLE_TEXT_BYTES: usize = 262144;

pub open spec fn spec_usage() -> Seq<char> {
    "usage: cargo run -p core-rs --bin decode_hwpx -- [options] <path-to-hwpx>"@ + "\n"@ + "\n"@ + "options:"@ + "\n"@
        + "  --out <directory>  extract the archive to a directory"@ + "\n"@
        + "  --parse            print the semantic HWPX parse instead of dumping raw XML to stdout"@ + "\n"@
        + "  --help             show this help text"@ + "\n"@ + "\n"@ + "examples:"@ + "\n"@
        + "  cargo run -p core-rs --bin decode_hwpx -- sample.hwpx"@ + "\n"@
        + "  cargo run -p core-rs --bin decode_hwpx -- --parse sample.hwpx"@ + "\n"@
        + "  cargo run -p core-rs --bin decode_hwpx -- sample.hwpx --out /tmp/sample"@
}

/// The help text.
pub fn usage() -> (s: String)
    ensures
        s@ == spec_usage(),
{
    let mut s = owned("usage: cargo run -p core-rs --bin decode_hwpx -- [options] <path-to-hwpx>");
    s.append("\n");
    s.append("\n");
    s.append("options:");
    s.append("\n");
    s.append("  --out <directory>  extract the archive to a directory");
    s.append("\n");
    s.append("  --parse            print the semantic HWPX parse instead of dumping raw XML to stdout");
    s.append("\n");
    s.append("  --help             show this help text");
    s.append("\n");
    s.append("\n");
    s.append("examples:");
    s.append("\n");
    s.append("  cargo run -p core-rs --bin decode_hwpx -- sample.hwpx");
    s.append("\n");
    s.append("  cargo run -p core-rs --bin decode_hwpx -- --parse sample.hwpx");
    s.append("\n");
    s.append("  cargo run -p core-rs --bin decode_hwpx -- sample.hwpx --out /tmp/sample");
    s
}

/// The options that the arguments from `i` on give, after those before `i` gave
/// `input`, `out` and `parse`: `--help` or `-h` asks for help (no options); `--out`
/// takes the next argument; `--parse` turns on the semantic parse; any other `--`
/// argument is unknown; the one other argument is the input path.
pub open spec fn spec_parse_args_from(
    args: Seq<Seq<char>>,
    i: int,
    input: Option<Seq<char>>,
    out: Option<Seq<char>>,
    parse: bool,
) -> Result<Option<CliOptionsV>, Seq<char>>
    decreases args.len() - i,
{
    if i >= args.len() || i < 0 {
        match input {
            None => Err(spec_usage()),
            Some(p) => Ok(Some(CliOptionsV { input_path: p, output_dir: out, parse_semantics: parse })),
        }
    } else {
        let a = args[i];
        if a == "--help"@ || a == "-h"@ {
            Ok(None)
        } else if a == "--out"@ {
            if i + 1 < args.len() {
                spec_parse_args_from(args, i + 2, input, Some(args[i + 1]), parse)
            } else {
                Err("--out requires a directory path"@)
            }
        } else if a == "--parse"@ {
            spec_parse_args_from(args, i + 1, input, out, true)
        } else if a.len() >= 2 && a[0] == '-' && a[1] == '-' {
            Err("unknown argument: "@ + a + "\n\n"@ + spec_usage())
        } else {
            match input {
                Some(p) => Err("multiple input paths provided: "@ + p + " and "@ + a + "\n\n"@ + spec_usage()),
                None => spec_parse_args_from(args, i + 1, Some(a), out, parse),
            }
        }
    }
}

pub open spec fn spec_parse_args(args: Seq<Seq<char>>) -> Result<Option<CliOptionsV>, Seq<char>> {
    spec_parse_args_from(args, 0, None, None, false)
}

pub open spec fn args_view(args: Seq<String>) -> Seq<Seq<char>> {
    args.map_values(|a: String| a@)
}

fn is_double_dash(cs: &Vec<char>) -> (b: bool)
    ensures
        b == (cs@.len() >= 2 && cs@[0] == '-' && cs@[1] == '-'),
{
    cs.len() >= 2 && cs[0] == '-' && cs[1] == '-'
}

/// Reads the tool's arguments (without the program name).
pub fn parse_args(args: Vec<String>) -> (r: Result<Option<CliOptions>, String>)
    ensures
        match spec_parse_args(args_view(args@)) {
            Ok(Some(o)) => r matches Ok(Some(x)) && x@ == o,
            Ok(None) => r matches Ok(None),
            Err(m) => r matches Err(x) && x@ == m,
        },
{
    let ghost av = args_view(args@);
    let mut input_path: Option<String> = None;
    let mut output_dir: Option<String> = None;
    let mut parse_semantics = false;
    let mut i: usize = 0;
    while i < args.len()
        invariant
            i <= args.len(),
            av == args_view(args@),
            spec_parse_args(av) == spec_parse_args_from(
                av,
                i as int,
                match input_path { Some(p) => Some(p@), None => None },
                match output_dir { Some(d) => Some(d@), None => None },
                parse_semantics,
            ),
        decreases args.len() - i,
    {
        let arg = args[i].as_str();
        assert(av[i as int] == arg@);
        if str_eq(arg, "--help") || str_eq(arg, "-h") {
            return Ok(None);
        } else if str_eq(arg, "--out") {
            if i + 1 < args.len() {
                assert(av[i + 1] == args@[i + 1]@);
                output_dir = Some(args[i + 1].clone());
                i += 2;
            } else {
                return Err(owned("--out requires a directory path"));
            }
        } else if str_eq(arg, "--parse") {
            parse_semantics = true;
            i += 1;
        } else {
            let cs = chars_of(arg);
            if is_double_dash(&cs) {
                let mut m = owned("unknown argument: ");
                m.append(arg);
                m.append("\n\n");
                let u = usage();
                m.append(u.as_str());
                return Err(m);
            }
            match &input_path {
                Some(p) => {
                    let mut m = owned("multiple input paths provided: ");
                    m.append(p.as_str());
                    m.append(" and ");
                    m.append(arg);
                    m.append("\n\n");
                    let u = usage();
                    m.append(u.as_str());
                    return Err(m);
                },
                None => {},
            }
            input_path = Some(args[i].clone());
            i += 1;
        }
    }
    match input_path {
        None => Err(usage()),
        Some(input_path) => Ok(Some(CliOptions { input_path, output_dir, parse_semantics })),
    }
}

/// The pieces of a text between the separators (an empty text is one empty piece).
pub open spec fn spec_split(s: Seq<char>, sep: char) -> Seq<Seq<char>>
    decreases s.len(),
{
    if s.len() == 0 {
        seq![seq![]]
    } else {
        let before = spec_split(s.drop_last(), sep);
        if s.last() == sep {
            before.push(seq![])
        } else {
            before.update(before.len() - 1, before.last().push(s.last()))
        }
    }
}

pub proof fn lemma_split_nonempty(s: Seq<char>, sep: char)
    ensures
        spec_split(s, sep).len() > 0,
    decreases s.len(),
{
    if s.len() > 0 {
        lemma_split_nonempty(s.drop_last(), sep);
    }
}

/// The normal path components among pieces, or `None` when one is `..`: empty
/// pieces and `.` are dropped.
pub open spec fn spec_normal_components(parts: Seq<Seq<char>>) -> Option<Seq<Seq<char>>>
    decreases parts.len(),
{
    if parts.len() == 0 {
        Some(seq![])
    } else {
        match spec_normal_components(parts.drop_last()) {
            None => None,
            Some(kept) => {
                let p = parts.last();
                if p == ".."@ {
                    None
                } else if p.len() == 0 || p == "."@ {
                    Some(kept)
                } else {
                    Some(kept.push(p))
                }
            },
        }
    }
}

/// Components joined with `/`.
pub open spec fn spec_join_components(parts: Seq<Seq<char>>) -> Seq<char>
    decreases parts.len(),
{
    if parts.len() == 0 {
        seq![]
    } else if parts.len() == 1 {
        parts[0]
    } else {
        spec_join_components(parts.drop_last()) + seq!['/'] + parts.last()
    }
}

/// A relative path under a directory, with a separator between them when needed.
pub open spec fn spec_join_path(dir: Seq<char>, rel: Seq<char>) -> Seq<char> {
    if dir.len() == 0 || dir.last() == '/' {
        dir + rel
    } else {
        dir + seq!['/'] + rel
    }
}

/// Where an archive entry is extracted: under the output directory, by its normal
/// components; an absolute name or one with `..` is refused, and so is a name with
/// no normal component.
pub open spec fn spec_resolve_output_path(dir: Seq<char>, name: Seq<char>) -> Result<Seq<char>, Seq<char>> {
    let unsafe_path = "refusing to extract unsafe archive entry path: "@ + name;
    if name.len() > 0 && name[0] == '/' {
        Err(unsafe_path)
    } else {
        match spec_normal_components(spec_split(name, '/')) {
            None => Err(unsafe_path),
            Some(parts) => if parts.len() == 0 {
                Err("refusing to extract archive entry with empty resolved path: "@ + name)
            } else {
                Ok(spec_join_path(dir, spec_join_components(parts)))
            },
        }
    }
}

/// Splits a text at a separator.
pub fn split_at_char(text: &str, sep: char) -> (parts: Vec<String>)
    ensures
        args_view(parts@) == spec_split(text@, sep),
{
    let cs = chars_of(text);
    let mut parts: Vec<String> = Vec::new();
    let mut current = String::new();
    let mut i: usize = 0;
    while i < cs.len()
        invariant
            i <= cs.len(),
            cs@ == text@,
            args_view(parts@).push(current@) == spec_split(text@.take(i as int), sep),
        decreases cs.len() - i,
    {
        assert(text@.take(i + 1).drop_last() == text@.take(i as int));
        let ghost before = args_view(parts@).push(current@);
        if cs[i] == sep {
            let done = current;
            parts.push(done);
            current = String::new();
            assert(args_view(parts@).push(current@) =~= before.push(seq![]));
        } else {
            push_char(&mut current, cs[i]);
            assert(args_view(parts@).push(current@) =~= before.update(before.len() - 1, before.last().push(cs@[i as int])));
        }
        i += 1;
    }
    assert(text@.take(text@.len() as int) == text@);
    parts.push(current);
    parts
}

/// Where an archive entry may be extracted, or why it may not.
pub fn resolve_output_path(output_dir: &str, entry_name: &str) -> (r: Result<String, String>)
    ensures
        match spec_resolve_output_path(output_dir@, entry_name@) {
            Ok(p) => r matches Ok(x) && x@ == p,
            Err(m) => r matches Err(x) && x@ == m,
        },
{
    let name_chars = chars_of(entry_name);
    let mut unsafe_path = owned("refusing to extract unsafe archive entry path: ");
    unsafe_path.append(entry_name);
    if name_chars.len() > 0 && name_chars[0] == '/' {
        return Err(unsafe_path);
    }
    let parts = split_at_char(entry_name, '/');
    let ghost pv = args_view(parts@);
    let mut kept: Vec<String> = Vec::new();
    let mut i: usize = 0;
    assert(args_view(kept@) =~= seq![]);
    while i < parts.len()
        invariant
            i <= parts.len(),
            pv == args_view(parts@),
            pv == spec_split(entry_name@, '/'),
            unsafe_path@ == "refusing to extract unsafe archive entry path: "@ + entry_name@,
            !(entry_name@.len() > 0 && entry_name@[0] == '/'),
            spec_normal_components(pv.take(i as int)) == Some(args_view(kept@)),
        decreases parts.len() - i,
    {
        assert(pv.take(i + 1).drop_last() == pv.take(i as int));
        assert(pv.take(i + 1).last() == parts@[i as int]@);
        let part = parts[i].as_str();
        if str_eq(part, "..") {
            proof { lemma_normal_none(pv, i as int + 1); }
            return Err(unsafe_path);
        }
        if !(part.is_empty() || str_eq(part, ".")) {
            let ghost prev = args_view(kept@);
            kept.push(parts[i].clone());
            assert(args_view(kept@) =~= prev.push(part@));
        }
        i += 1;
    }
    assert(pv.take(pv.len() as int) == pv);
    if kept.len() == 0 {
        let mut m = owned("refusing to extract archive entry with empty resolved path: ");
        m.append(entry_name);
        return Err(m);
    }
    let ghost kv = args_view(kept@);
    let mut relative = String::new();
    let mut k: usize = 0;
    while k < kept.len()
        invariant
            k <= kept.len(),
            kv == args_view(kept@),
            relative@ == spec_join_components(kv.take(k as int)),
        decreases kept.len() - k,
    {
        assert(kv.take(k + 1).drop_last() == kv.take(k as int));
        assert(kv.take(k + 1).last() == kept@[k as int]@);
        if k > 0 {
            push_char(&mut relative, '/');
        } else {
            assert(kv.take(1) =~= seq![kept@[0]@]);
        }
        relative.append(kept[k].as_str());
        k += 1;
    }
    assert(kv.take(kv.len() as int) == kv);
    let dir = chars_of(output_dir);
    let mut joined = owned(output_dir);
    if dir.len() > 0 && dir[dir.len() - 1] != '/' {
        push_char(&mut joined, '/');
    }
    joined.append(relative.as_str());
    assert(joined@ =~= spec_join_path(output_dir@, relative@));
    Ok(joined)
}

proof fn lemma_normal_none(parts: Seq<Seq<char>>, k: int)
    requires
        0 <= k <= parts.len(),
        spec_normal_components(parts.take(k)) is None,
    ensures
        spec_normal_components(parts) is None,
    decreases parts.len(),
{
    if parts.len() == k {
        assert(parts.take(k) == parts);
    } else {
        assert(parts.drop_last().take(k) == parts.take(k));
        lemma_normal_none(parts.drop_last(), k);
    }
}

/// Whether an entry holds XML: `.xml`, `.hpf` or `.rdf`.
pub open spec fn spec_is_xml_like(name: Seq<char>) -> bool {
    spec_ends_with(name, ".xml"@) || spec_ends_with(name, ".hpf"@) || spec_ends_with(name, ".rdf"@)
}

/// Whether an entry holds XML: `.xml`, `.hpf` or `.rdf`.
pub fn is_xml_like(name: &str) -> (b: bool)
    ensures
        b == spec_is_xml_like(name@),
{
    ends_with(name, ".xml") || ends_with(name, ".hpf") || ends_with(name, ".rdf")
}

/// Whether an entry is shown as text: XML, `.txt`, or the `mimetype` entry.
pub fn is_console_text(name: &str) -> (b: bool)
    ensures
        b == (spec_is_xml_like(name@) || spec_ends_with(name@, ".txt"@) || name@ == "mimetype"@),
{
    is_xml_like(name) || ends_with(name, ".txt") || str_eq(name, "mimetype")
}

/// Whether bytes are UTF-8.
///
/// Trusted: `std::str::from_utf8` succeeds exactly on valid UTF-8.
#[verifier::external_body]
fn is_utf8(bytes: &[u8]) -> (b: bool)
    ensures
        b == vstd::utf8::valid_utf8(bytes@),
{
    std::str::from_utf8(bytes).is_ok()
}

/// The bytes up to the last point where they are valid UTF-8: bytes are dropped
/// from the end until the rest is valid or empty.
pub open spec fn spec_trim_to_utf8(b: Seq<u8>) -> Seq<u8>
    decreases b.len(),
{
    if b.len() == 0 || vstd::utf8::valid_utf8(b) {
        b
    } else {
        spec_trim_to_utf8(b.drop_last())
    }
}

/// Drops bytes from the end until the rest is UTF-8.
pub fn trim_to_utf8_boundary(bytes: &mut Vec<u8>)
    ensures
        final(bytes)@ == spec_trim_to_utf8(old(bytes)@),
{
    while bytes.len() > 0 && !is_utf8(bytes.as_slice())
        invariant
            spec_trim_to_utf8(old(bytes)@) == spec_trim_to_utf8(bytes@),
        decreases bytes.len(),
    {
        let ghost before = bytes@;
        bytes.pop();
        assert(bytes@ == before.drop_last());
    }
}

/// The uppercase hexadecimal digit of a value below sixteen.
pub open spec fn hex_digit(d: nat) -> char {
    if d < 10 { ((48 + d) as u8) as char } else { ((55 + d) as u8) as char }
}

pub open spec fn hex_byte(b: u8) -> Seq<char> {
    seq![hex_digit((b / 16) as nat), hex_digit((b % 16) as nat)]
}

/// Bytes as two-digit uppercase hexadecimal, separated by spaces.
pub open spec fn spec_to_hex(b: Seq<u8>) -> Seq<char>
    decreases b.len(),
{
    if b.len() == 0 {
        seq![]
    } else if b.len() == 1 {
        hex_byte(b[0])
    } else {
        spec_to_hex(b.drop_last()) + seq![' '] + hex_byte(b.last())
    }
}

fn hex_digit_char(d: u8) -> (c: char)
    requires
        d < 16,
    ensures
        c == hex_digit(d as nat),
{
    if d < 10 { ((48 + d) as u8) as char } else { ((55 + d) as u8) as char }
}

/// Bytes as two-digit uppercase hexadecimal, separated by spaces.
pub fn to_hex(bytes: &Vec<u8>) -> (s: String)
    ensures
        s@ == spec_to_hex(bytes@),
{
    let mut s = String::new();
    let mut i: usize = 0;
    while i < bytes.len()
        invariant
            i <= bytes.len(),
            s@ == spec_to_hex(bytes@.take(i as int)),
        decreases bytes.len() - i,
    {
        assert(bytes@.take(i + 1).drop_last() == bytes@.take(i as int));
        if i > 0 {
            push_char(&mut s, ' ');
        } else {
            assert(bytes@.take(1) =~= seq![bytes@[0]]);
        }
        let b = bytes[i];
        push_char(&mut s, hex_digit_char(b / 16));
        push_char(&mut s, hex_digit_char(b % 16));
        assert(s@ =~= spec_to_hex(bytes@.take(i + 1)));
        i += 1;
    }
    assert(bytes@.take(bytes@.len() as int) == bytes@);
    s
}

/// What the first bytes of a file show it to be.
#[derive(Debug, Clone, Copy, PartialEq, Eq, Structural)]
pub enum FileFormat {
    /// Fewer than four bytes: too small to tell.
    TooSmall,
    /// A ZIP archive, as HWPX packages are.
    Zip,
    /// An OLE compound file, as HWP 5 documents are.
    Ole,
    Unknown,
}

pub open spec fn zip_magic() -> Seq<u8> {
    seq![0x50u8, 0x4Bu8, 0x03u8, 0x04u8]
}

pub open spec fn ole_magic() -> Seq<u8> {
    seq![0xD0u8, 0xCFu8, 0x11u8, 0xE0u8, 0xA1u8, 0xB1u8, 0x1Au8, 0xE1u8]
}

/// The format that the first bytes read from a file (at most eight) show.
pub open spec fn spec_detect_format(header: Seq<u8>) -> FileFormat {
    if header.len() < 4 {
        FileFormat::TooSmall
    } else if header.take(4) == zip_magic() {
        FileFormat::Zip
    } else if header.len() >= 8 && header.take(8) == ole_magic() {
        FileFormat::Ole
    } else {
        FileFormat::Unknown
    }
}

/// The format that the first bytes read from a file show.
pub fn detect_format(header: &Vec<u8>) -> (f: FileFormat)
    ensures
        f == spec_detect_format(header@),
{
    if header.len() < 4 {
        return FileFormat::TooSmall;
    }
    let zip = header[0] == 0x50 && header[1] == 0x4B && header[2] == 0x03 && header[3] == 0x04;
    proof {
        let t = header@.take(4);
        assert(t[0] == header@[0] && t[1] == header@[1] && t[2] == header@[2] && t[3] == header@[3]);
        if zip {
            assert(t =~= zip_magic());
        }
    }
    if zip {
        return FileFormat::Zip;
    }
    if header.len() >= 8 {
        let ole = header[0] == 0xD0 && header[1] == 0xCF && header[2] == 0x11 && header[3] == 0xE0
            && header[4] == 0xA1 && header[5] == 0xB1 && header[6] == 0x1A && header[7] == 0xE1;
        proof {
            let t = header@.take(8);
            assert(t[0] == header@[0] && t[1] == header@[1] && t[2] == header@[2] && t[3] == header@[3]);
            assert(t[4] == header@[4] && t[5] == header@[5] && t[6] == header@[6] && t[7] == header@[7]);
            if ole {
                assert(t =~= ole_magic());
            }
        }
        if ole {
            return FileFormat::Ole;
        }
    }
    FileFormat::Unknown
}

/// Cuts an entry's bytes to what the console shows: when they exceed the limit,
/// the first `MAX_CONSOLE_TEXT_BYTES` bytes up to a UTF-8 boundary. Returns whether
/// it cut.
pub fn truncate_for_console(bytes: &mut Vec<u8>) -> (truncated: bool)
    ensures
        truncated == (old(bytes)@.len() > MAX_CONSOLE_TEXT_BYTES),
        truncated ==> final(bytes)@ == spec_trim_to_utf8(old(bytes)@.take(MAX_CONSOLE_TEXT_BYTES as int)),
        !truncated ==> final(bytes)@ == old(bytes)@,
{
    if bytes.len() > MAX_CONSOLE_TEXT_BYTES {
        bytes.truncate(MAX_CONSOLE_TEXT_BYTES);
        trim_to_utf8_boundary(bytes);
        true
    } else {
        false
    }
}

/// A text with every CRLF pair turned into a line feed.
pub open spec fn spec_normalize_newlines(s: Seq<char>) -> Seq<char>
    decreases s.len(),
{
    if s.len() == 0 {
        seq![]
    } else if s.len() >= 2 && s[0] == '\r' && s[1] == '\n' {
        seq!['\n'] + spec_normalize_newlines(s.skip(2))
    } else {
        seq![s[0]] + spec_normalize_newlines(s.skip(1))
    }
}

/// A text with every CRLF pair turned into a line feed.
pub fn normalize_newlines(text: &str) -> (r: String)
    ensures
        r@ == spec_normalize_newlines(text@),
{
    let cs = chars_of(text);
    let ghost t = text@;
    let mut r = String::new();
    let mut i: usize = 0;
    assert(t.skip(0) == t);
    while i < cs.len()
        invariant
            i <= cs.len(),
            cs@ == t,
            r@ + spec_normalize_newlines(t.skip(i as int)) == spec_normalize_newlines(t),
        decreases cs.len() - i,
    {
        let ghost rest = t.skip(i as int);
        let ghost before = r@;
        if i + 1 < cs.len() && cs[i] == '\r' && cs[i + 1] == '\n' {
            push_char(&mut r, '\n');
            assert(rest.skip(2) == t.skip(i + 2));
            assert(r@ + spec_normalize_newlines(t.skip(i + 2)) =~= before + spec_normalize_newlines(rest));
            i += 2;
        } else {
            push_char(&mut r, cs[i]);
            assert(rest.skip(1) == t.skip(i + 1));
            assert(r@ + spec_normalize_newlines(t.skip(i + 1)) =~= before + spec_normalize_newlines(rest));
            i += 1;
        }
    }
    assert(t.skip(i as int) =~= seq![]);
    assert(r@ + seq![] =~= r@);
    r
}

} // verus!
