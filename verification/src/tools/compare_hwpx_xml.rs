//! Comparing two HWPX archives by their normalized entries: which paths only one
//! of them holds, which entries differ, and where two texts first differ.
use vstd::prelude::*;
use crate::generators::docx::markup::spec_lines;
use crate::generators::docx::render::lines_of;
use crate::generators::hwpx::items::strings_view;
use crate::parser::hwpx::dump::{debug_quoted, spec_debug_str};
use crate::tools::archive_fixture::{NormalizedEntry, NormalizedEntryV, PathEntryV, normalized_view};
use crate::utils::text::{
    append_decimal, decimal, decimal_string, digit_char, ends_with, owned, push_char, spec_ends_with, str_eq,
};

verus! {

/// Whether an entry is compared as text: XML, package, RDF and text files, and
/// the `mimetype` entry.
pub open spec fn spec_is_text_entry(name: Seq<char>) -> bool {
    spec_ends_with(name, ".xml"@) || spec_ends_with(name, ".hpf"@) || spec_ends_with(name, ".rdf"@)
        || spec_ends_with(name, ".txt"@) || name == "mimetype"@
}

/// Whether an entry is compared as text.
pub fn is_text_entry(name: &str) -> (b: bool)
    ensures
        b == spec_is_text_entry(name@),
{
    ends_with(name, ".xml") || ends_with(name, ".hpf") || ends_with(name, ".rdf") || ends_with(name, ".txt")
        || str_eq(name, "mimetype")
}

/// The index of the first line at which two texts' lines differ; where one is a
/// prefix of the other, the number of lines of the shorter.
pub open spec fn spec_first_diff(left: Seq<Seq<char>>, right: Seq<Seq<char>>) -> nat
    decreases left.len(),
{
    if left.len() == 0 || right.len() == 0 || left[0] != right[0] {
        0
    } else {
        1 + spec_first_diff(left.drop_first(), right.drop_first())
    }
}

/// The line at an index, or `<missing>` past the last line.
pub open spec fn spec_preview(lines: Seq<Seq<char>>, index: nat) -> Seq<char> {
    if index < lines.len() { lines[index as int] } else { "<missing>"@ }
}

/// Where two texts first differ: the line number, both line counts, and both
/// lines there (quoted as `Debug` writes strings).
pub open spec fn spec_text_difference(left: Seq<char>, right: Seq<char>) -> Seq<char> {
    let l = spec_lines(left);
    let r = spec_lines(right);
    let index = spec_first_diff(l, r);
    "first_diff_line="@ + decimal(index + 1) + " left_lines="@ + decimal(l.len()) + " right_lines="@
        + decimal(r.len()) + " left_preview="@ + spec_debug_str(spec_preview(l, index)) + " right_preview="@
        + spec_debug_str(spec_preview(r, index))
}

proof fn lemma_first_diff(left: Seq<Seq<char>>, right: Seq<Seq<char>>, i: int)
    requires
        0 <= i <= left.len(),
        i <= right.len(),
        forall|j: int| 0 <= j < i ==> left[j] == right[j],
    ensures
        spec_first_diff(left, right) == i + spec_first_diff(left.skip(i), right.skip(i)),
    decreases i,
{
    if i > 0 {
        lemma_first_diff(left.drop_first(), right.drop_first(), i - 1);
        assert(left.drop_first().skip(i - 1) == left.skip(i));
        assert(right.drop_first().skip(i - 1) == right.skip(i));
    } else {
        assert(left.skip(0) == left);
        assert(right.skip(0) == right);
    }
}

/// The decimal text of one more than a number.
fn decimal_of_next(n: usize) -> (s: String)
    ensures
        s@ == decimal((n + 1) as nat),
{
    if n < usize::MAX {
        return decimal_string((n + 1) as u64);
    }
    let q = n / 10;
    let d = n % 10;
    assert(n + 1 >= 10);
    if d == 9 {
        assert((n + 1) / 10 == q + 1 && (n + 1) % 10 == 0) by (nonlinear_arith)
            requires
                q == n / 10,
                d == n % 10,
                d == 9,
        ;
        let mut s = decimal_string((q + 1) as u64);
        push_char(&mut s, '0');
        assert(digit_char(0) == '0');
        s
    } else {
        assert((n + 1) / 10 == q && (n + 1) % 10 == d + 1) by (nonlinear_arith)
            requires
                q == n / 10,
                d == n % 10,
                d < 9,
        ;
        assert(q >= 1);
        let mut s = decimal_string(q as u64);
        push_char(&mut s, ((49 + d) as u8) as char);
        s
    }
}

/// Where two texts first differ, by their lines: the line number, the two line
/// counts, and the two lines there.
pub fn summarize_text_difference(left: &str, right: &str) -> (s: String)
    ensures
        s@ == spec_text_difference(left@, right@),
{
    let left_lines = lines_of(left);
    let right_lines = lines_of(right);
    let ghost l = strings_view(left_lines@);
    let ghost r = strings_view(right_lines@);
    let mut index: usize = 0;
    while index < left_lines.len() && index < right_lines.len()
        && str_eq(left_lines[index].as_str(), right_lines[index].as_str())
        invariant
            index <= left_lines.len(),
            index <= right_lines.len(),
            l == strings_view(left_lines@),
            r == strings_view(right_lines@),
            forall|j: int| 0 <= j < index ==> l[j] == r[j],
        decreases left_lines.len() - index,
    {
        index += 1;
    }
    proof {
        lemma_first_diff(l, r, index as int);
        let ls = l.skip(index as int);
        let rs = r.skip(index as int);
        if ls.len() > 0 && rs.len() > 0 {
            assert(ls[0] == l[index as int] && rs[0] == r[index as int]);
        }
        assert(spec_first_diff(ls, rs) == 0);
    }
    let mut s = owned("first_diff_line=");
    s.append(decimal_of_next(index).as_str());
    s.append(" left_lines=");
    append_decimal(&mut s, left_lines.len() as u64);
    s.append(" right_lines=");
    append_decimal(&mut s, right_lines.len() as u64);
    s.append(" left_preview=");
    if index < left_lines.len() {
        s.append(debug_quoted(left_lines[index].as_str()).as_str());
    } else {
        s.append(debug_quoted("<missing>").as_str());
    }
    s.append(" right_preview=");
    if index < right_lines.len() {
        s.append(debug_quoted(right_lines[index].as_str()).as_str());
    } else {
        s.append(debug_quoted("<missing>").as_str());
    }
    s
}

/// The entry stored under a path in a listing (the first, where a path occurs
/// twice).
pub open spec fn spec_lookup(v: Seq<PathEntryV>, path: Seq<char>) -> Option<NormalizedEntryV>
    decreases v.len(),
{
    if v.len() == 0 {
        None
    } else if v[0].0 == path {
        Some(v[0].1)
    } else {
        spec_lookup(v.drop_first(), path)
    }
}

/// The paths of `from`, in order, under which `other` holds nothing.
pub open spec fn spec_missing(from: Seq<PathEntryV>, other: Seq<PathEntryV>) -> Seq<Seq<char>>
    decreases from.len(),
{
    if from.len() == 0 {
        seq![]
    } else {
        let rest = spec_missing(from.drop_last(), other);
        if spec_lookup(other, from.last().0) is None { rest.push(from.last().0) } else { rest }
    }
}

/// A path held by both listings with different entries: the path, the left entry
/// and the right one.
pub type DifferenceV = (Seq<char>, NormalizedEntryV, NormalizedEntryV);

/// The entries of `left`, in order, whose path `right` holds with another entry.
pub open spec fn spec_differing(left: Seq<PathEntryV>, right: Seq<PathEntryV>) -> Seq<DifferenceV>
    decreases left.len(),
{
    if left.len() == 0 {
        seq![]
    } else {
        let rest = spec_differing(left.drop_last(), right);
        let (path, entry) = left.last();
        match spec_lookup(right, path) {
            Some(other) => if other != entry { rest.push((path, entry, other)) } else { rest },
            None => rest,
        }
    }
}

/// An entry in brief: a text by its length in UTF-8 bytes, a binary entry by its
/// digest.
pub open spec fn spec_describe_entry(entry: NormalizedEntryV) -> Seq<char> {
    match entry {
        NormalizedEntryV::Text(t) => "text(len="@ + decimal(vstd::utf8::encode_utf8(t).len()) + ")"@,
        NormalizedEntryV::BinaryHash(h) => "binary(sha256="@ + h + ")"@,
    }
}

/// The report lines of one differing entry: for two texts, where they first
/// differ; else both entries in brief.
pub open spec fn spec_difference_lines(d: DifferenceV) -> Seq<Seq<char>> {
    seq!["  - "@ + d.0] + match (d.1, d.2) {
        (NormalizedEntryV::Text(a), NormalizedEntryV::Text(b)) => seq![
            "    kind: text"@,
            "    "@ + spec_text_difference(a, b),
        ],
        _ => seq!["    left:  "@ + spec_describe_entry(d.1), "    right: "@ + spec_describe_entry(d.2)],
    }
}

/// The report lines of the differing entries, in order.
pub open spec fn spec_differences_lines(ds: Seq<DifferenceV>) -> Seq<Seq<char>>
    decreases ds.len(),
{
    if ds.len() == 0 {
        seq![]
    } else {
        spec_differences_lines(ds.drop_last()) + spec_difference_lines(ds.last())
    }
}

/// A titled list of paths, or nothing when there are none.
pub open spec fn spec_path_section(title: Seq<char>, paths: Seq<Seq<char>>) -> Seq<Seq<char>> {
    if paths.len() == 0 {
        seq![]
    } else {
        seq![title] + paths.map_values(|p: Seq<char>| "  - "@ + p)
    }
}

/// The comparison report of two listings, line by line: both paths; the paths
/// only the right holds; those only the left holds; the differing entries; and
/// whether the two are equivalent.
pub open spec fn spec_report_lines(
    left_path: Seq<char>,
    left: Seq<PathEntryV>,
    right_path: Seq<char>,
    right: Seq<PathEntryV>,
) -> Seq<Seq<char>> {
    let missing_in_left = spec_missing(right, left);
    let missing_in_right = spec_missing(left, right);
    let differing = spec_differing(left, right);
    let equivalent = missing_in_left.len() == 0 && missing_in_right.len() == 0 && differing.len() == 0;
    seq!["left: "@ + left_path, "right: "@ + right_path]
        + spec_path_section("missing_in_left:"@, missing_in_left)
        + spec_path_section("missing_in_right:"@, missing_in_right)
        + (if differing.len() == 0 {
            seq![]
        } else {
            seq!["differing_entries:"@] + spec_differences_lines(differing)
        })
        + seq![if equivalent { "status: equivalent"@ } else { "status: different"@ }]
}

/// The index of the first entry under a path.
fn lookup(v: &Vec<(String, NormalizedEntry)>, path: &str) -> (r: Option<usize>)
    ensures
        match r {
            None => spec_lookup(normalized_view(v@), path@) is None,
            Some(i) => i < v.len() && spec_lookup(normalized_view(v@), path@) == Some(v@[i as int].1@),
        },
{
    let ghost w = normalized_view(v@);
    let mut i: usize = 0;
    assert(w.skip(0) == w);
    while i < v.len()
        invariant
            i <= v.len(),
            w == normalized_view(v@),
            spec_lookup(w, path@) == spec_lookup(w.skip(i as int), path@),
        decreases v.len() - i,
    {
        assert(w.skip(i as int)[0] == w[i as int]);
        if str_eq(v[i].0.as_str(), path) {
            return Some(i);
        }
        assert(w.skip(i as int).drop_first() == w.skip(i + 1));
        i += 1;
    }
    None
}

/// The paths of `from` under which `other` holds nothing.
fn missing(from: &Vec<(String, NormalizedEntry)>, other: &Vec<(String, NormalizedEntry)>) -> (r: Vec<String>)
    ensures
        strings_view(r@) == spec_missing(normalized_view(from@), normalized_view(other@)),
{
    let ghost f = normalized_view(from@);
    let mut out: Vec<String> = Vec::new();
    let mut i: usize = 0;
    while i < from.len()
        invariant
            i <= from.len(),
            f == normalized_view(from@),
            strings_view(out@) == spec_missing(f.take(i as int), normalized_view(other@)),
        decreases from.len() - i,
    {
        assert(f.take(i + 1).drop_last() =~= f.take(i as int));
        assert(f.take(i + 1).last() == f[i as int]);
        if lookup(other, from[i].0.as_str()).is_none() {
            let ghost before = strings_view(out@);
            out.push(from[i].0.clone());
            assert(strings_view(out@) =~= before.push(f[i as int].0));
        }
        i += 1;
    }
    assert(f.take(i as int) == f);
    out
}

/// An entry in brief.
fn describe_entry(entry: &NormalizedEntry) -> (s: String)
    ensures
        s@ == spec_describe_entry(entry@),
{
    match entry {
        NormalizedEntry::Text(text) => {
            let mut s = owned("text(len=");
            let n = text.as_str().as_bytes().len();
            append_decimal(&mut s, n as u64);
            s.append(")");
            s
        },
        NormalizedEntry::BinaryHash(hash) => {
            let mut s = owned("binary(sha256=");
            s.append(hash.as_str());
            s.append(")");
            s
        },
    }
}

/// Appends the report lines of the entries of `left` that `right` holds with
/// another entry; says whether there was one.
fn push_differences(
    lines: &mut Vec<String>,
    left: &Vec<(String, NormalizedEntry)>,
    right: &Vec<(String, NormalizedEntry)>,
) -> (any: bool)
    ensures
        strings_view(final(lines)@) == strings_view(old(lines)@) + spec_differences_lines(
            spec_differing(normalized_view(left@), normalized_view(right@)),
        ),
        any == (spec_differing(normalized_view(left@), normalized_view(right@)).len() > 0),
{
    let ghost l = normalized_view(left@);
    let ghost r = normalized_view(right@);
    let ghost start = strings_view(lines@);
    let mut any = false;
    let mut i: usize = 0;
    while i < left.len()
        invariant
            i <= left.len(),
            l == normalized_view(left@),
            r == normalized_view(right@),
            strings_view(lines@) == start + spec_differences_lines(spec_differing(l.take(i as int), r)),
            any == (spec_differing(l.take(i as int), r).len() > 0),
        decreases left.len() - i,
    {
        assert(l.take(i + 1).drop_last() =~= l.take(i as int));
        assert(l.take(i + 1).last() == l[i as int]);
        let ghost prev = spec_differing(l.take(i as int), r);
        match lookup(right, left[i].0.as_str()) {
            Some(j) => {
                if !same_entry_ref(&left[i].1, &right[j].1) {
                    let ghost before = strings_view(lines@);
                    let ghost d = (l[i as int].0, l[i as int].1, r[j as int].1);
                    let mut head = owned("  - ");
                    head.append(left[i].0.as_str());
                    lines.push(head);
                    match (&left[i].1, &right[j].1) {
                        (NormalizedEntry::Text(a), NormalizedEntry::Text(b)) => {
                            lines.push(owned("    kind: text"));
                            let mut line = owned("    ");
                            line.append(summarize_text_difference(a.as_str(), b.as_str()).as_str());
                            lines.push(line);
                        },
                        _ => {
                            let mut line = owned("    left:  ");
                            line.append(describe_entry(&left[i].1).as_str());
                            lines.push(line);
                            let mut line = owned("    right: ");
                            line.append(describe_entry(&right[j].1).as_str());
                            lines.push(line);
                        },
                    }
                    assert(spec_differing(l.take(i + 1), r) == prev.push(d));
                    assert(prev.push(d).drop_last() =~= prev);
                    assert(strings_view(lines@) =~= before + spec_difference_lines(d));
                    any = true;
                }
            },
            None => {},
        }
        i += 1;
    }
    assert(l.take(i as int) == l);
    any
}

/// Whether two entries are the same.
fn same_entry_ref(a: &NormalizedEntry, b: &NormalizedEntry) -> (r: bool)
    ensures
        r == (a@ == b@),
{
    match (a, b) {
        (NormalizedEntry::Text(x), NormalizedEntry::Text(y)) => str_eq(x.as_str(), y.as_str()),
        (NormalizedEntry::BinaryHash(x), NormalizedEntry::BinaryHash(y)) => str_eq(x.as_str(), y.as_str()),
        _ => false,
    }
}

/// Appends a titled list of paths, or nothing when there are none.
fn push_path_section(lines: &mut Vec<String>, title: &str, paths: &Vec<String>)
    ensures
        strings_view(final(lines)@) == strings_view(old(lines)@) + spec_path_section(title@, strings_view(paths@)),
{
    if paths.len() == 0 {
        assert(strings_view(lines@) =~= strings_view(lines@) + spec_path_section(title@, strings_view(paths@)));
        return;
    }
    let ghost start = strings_view(lines@);
    let ghost ps = strings_view(paths@);
    lines.push(owned(title));
    let mut i: usize = 0;
    while i < paths.len()
        invariant
            i <= paths.len(),
            ps == strings_view(paths@),
            strings_view(lines@) == start + seq![title@] + ps.take(i as int).map_values(|p: Seq<char>| "  - "@ + p),
        decreases paths.len() - i,
    {
        let ghost before = strings_view(lines@);
        let mut line = owned("  - ");
        line.append(paths[i].as_str());
        lines.push(line);
        assert(ps.take(i + 1).map_values(|p: Seq<char>| "  - "@ + p) =~= ps.take(i as int).map_values(|p: Seq<char>| "  - "@ + p).push("  - "@ + ps[i as int]));
        assert(strings_view(lines@) =~= before.push("  - "@ + ps[i as int]));
        i += 1;
    }
    assert(ps.take(i as int) == ps);
}

/// The comparison report of two listings, line by line: the two archives' paths,
/// the paths that only the right holds (`missing_in_left`), those that only the
/// left holds (`missing_in_right`), the entries both hold but differently, and the
/// status, equivalent when there is none of these.
pub fn report_lines(
    left_path: &str,
    left: &Vec<(String, NormalizedEntry)>,
    right_path: &str,
    right: &Vec<(String, NormalizedEntry)>,
) -> (lines: Vec<String>)
    ensures
        strings_view(lines@) == spec_report_lines(left_path@, normalized_view(left@), right_path@, normalized_view(right@)),
{
    let ghost l = normalized_view(left@);
    let ghost r = normalized_view(right@);
    let mut lines: Vec<String> = Vec::new();
    let mut head = owned("left: ");
    head.append(left_path);
    lines.push(head);
    let mut head = owned("right: ");
    head.append(right_path);
    lines.push(head);
    assert(strings_view(lines@) =~= seq!["left: "@ + left_path@, "right: "@ + right_path@]);
    let missing_in_left = missing(right, left);
    let missing_in_right = missing(left, right);
    push_path_section(&mut lines, "missing_in_left:", &missing_in_left);
    push_path_section(&mut lines, "missing_in_right:", &missing_in_right);
    let ghost before = strings_view(lines@);
    let mut differences: Vec<String> = Vec::new();
    let any = push_differences(&mut differences, left, right);
    assert(strings_view(differences@) =~= seq![] + spec_differences_lines(spec_differing(l, r)));
    let ghost diff_lines = strings_view(differences@);
    if any {
        lines.push(owned("differing_entries:"));
        lines.append(&mut differences);
        assert(strings_view(lines@) =~= before + (seq!["differing_entries:"@] + diff_lines));
    } else {
        assert(strings_view(lines@) =~= before + Seq::<Seq<char>>::empty());
    }
    let ghost middle = strings_view(lines@);
    if missing_in_left.len() == 0 && missing_in_right.len() == 0 && !any {
        lines.push(owned("status: equivalent"));
    } else {
        lines.push(owned("status: different"));
    }
    assert(strings_view(lines@) =~= middle + seq![
        if spec_missing(r, l).len() == 0 && spec_missing(l, r).len() == 0 && spec_differing(l, r).len() == 0 {
            "status: equivalent"@
        } else {
            "status: different"@
        },
    ]);
    lines
}

} // verus!
