//! Refreshing a fixture's expected tree from its golden archive: which entries
//! are text, where each entry is written, and the line that reports how a
//! generated archive compares with the golden one.
use vstd::prelude::*;
use crate::tools::archive_fixture::BinaryRepresentation;
use crate::utils::text::{ends_with, owned, spec_ends_with, str_eq};

verus! {

/// Whether an entry is kept as text: the `mimetype` entry, and XML, RDF,
/// relationship, text and package files.
pub open spec fn spec_is_text_entry(path: Seq<char>) -> bool {
    path == "mimetype"@ || spec_ends_with(path, ".xml"@) || spec_ends_with(path, ".rdf"@)
        || spec_ends_with(path, ".rels"@) || spec_ends_with(path, ".txt"@) || spec_ends_with(path, ".hpf"@)
}

/// Whether an entry is kept as text.
pub fn is_text_entry(path: &str) -> (b: bool)
    ensures
        b == spec_is_text_entry(path@),
{
    str_eq(path, "mimetype") || ends_with(path, ".xml") || ends_with(path, ".rdf") || ends_with(path, ".rels")
        || ends_with(path, ".txt") || ends_with(path, ".hpf")
}

/// Where an entry is written in the expected tree: a text entry, or a binary one
/// kept raw, under its own path; any other binary entry as a `.sha256` file beside
/// it.
pub open spec fn spec_output_path(relative: Seq<char>, binary: bool, representation: Option<BinaryRepresentation>) -> Seq<char> {
    if binary && representation != Some(BinaryRepresentation::Raw) {
        relative + ".sha256"@
    } else {
        relative
    }
}

/// Where an entry is written in the expected tree.
pub fn output_path(relative: &str, binary: bool, representation: Option<BinaryRepresentation>) -> (r: String)
    ensures
        r@ == spec_output_path(relative@, binary, representation),
{
    let raw = match representation {
        Some(BinaryRepresentation::Raw) => true,
        _ => false,
    };
    let mut path = owned(relative);
    if binary && !raw {
        path.append(".sha256");
    }
    path
}

/// The line that reports how a generated archive compares with the golden one.
pub open spec fn spec_comparison_line(generated: Seq<char>, golden: Seq<char>, equivalent: bool) -> Seq<char> {
    "   compare: "@ + (if equivalent { "✅"@ } else { "❌"@ }) + " "@ + generated + " "@
        + (if equivalent { "equivalent"@ } else { "different"@ }) + " "@ + golden
}

/// The line that reports how a generated archive compares with the golden one.
pub fn comparison_line(generated: &str, golden: &str, equivalent: bool) -> (r: String)
    ensures
        r@ == spec_comparison_line(generated@, golden@, equivalent),
{
    let mut line = owned("   compare: ");
    if equivalent {
        line.append("✅");
    } else {
        line.append("❌");
    }
    line.append(" ");
    line.append(generated);
    line.append(" ");
    if equivalent {
        line.append("equivalent");
    } else {
        line.append("different");
    }
    line.append(" ");
    line.append(golden);
    line
}

} // verus!
