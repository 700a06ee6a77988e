//! A stable, indented text form of a parsed package, for inspecting what the
//! parser read: its metadata, then each block and inline by kind.
use vstd::prelude::*;
use crate::models::block::{Block, BlockV, ListItem, TableAlignment, TableRow, blocks_view, cells_view, items_view, rows_view};
use crate::models::inline::{Inline, InlineV, inlines_view};
use crate::parser::hwpx::metadata::{MetadataV, RawHwpxMetadata};
use crate::parser::hwpx::ParsedHwpx;
use crate::utils::text::{append_decimal, decimal};
use crate::utils::xml_reader::opt_string_view;

verus! {

broadcast use crate::models::block::group_view_lemmas;

/// A text as Rust's `Debug` writes a string: quoted, with escapes.
pub uninterp spec fn spec_debug_str(s: Seq<char>) -> Seq<char>;

/// A text as Rust's `Debug` writes a string.
///
/// Trusted: `format!("{:?}", s)` on a `&str`; the result is named as a function of
/// the text.
#[verifier::external_body]
pub(crate) fn debug_quoted(s: &str) -> (r: String)
    ensures
        r@ == spec_debug_str(s@),
{
    format!("{s:?}")
}

/// Two spaces per level.
pub open spec fn indentation(level: nat) -> Seq<char>
    decreases level,
{
    if level == 0 { seq![] } else { indentation((level - 1) as nat) + "  "@ }
}

/// The next indentation level.
pub open spec fn deeper(level: usize) -> usize {
    if level < usize::MAX { (level + 1) as usize } else { level }
}

pub open spec fn optional_value(v: Option<Seq<char>>) -> Seq<char> {
    match v {
        Some(t) => spec_debug_str(t),
        None => "null"@,
    }
}

pub open spec fn bool_text(b: bool) -> Seq<char> {
    if b { "true"@ } else { "false"@ }
}

/// An alignment as its `Debug` name; an unaligned column is `None`.
pub open spec fn align_text(a: TableAlignment) -> Seq<char> {
    match a {
        TableAlignment::Unaligned => "None"@,
        TableAlignment::Left => "Left"@,
        TableAlignment::Center => "Center"@,
        TableAlignment::Right => "Right"@,
    }
}

/// An inline in the dump.
pub open spec fn spec_dump_inline(i: InlineV) -> Seq<char>
    decreases i, 0int,
{
    match i {
        InlineV::Text(t) => "text("@ + spec_debug_str(t) + ")"@,
        InlineV::Emphasis(c) => "emphasis("@ + spec_dump_inlines(c) + ")"@,
        InlineV::Strong(c) => "strong("@ + spec_dump_inlines(c) + ")"@,
        InlineV::Code(c) => "code("@ + spec_debug_str(c) + ")"@,
        InlineV::Link { text, url } => "link(text="@ + spec_dump_inlines(text) + ", url="@ + spec_debug_str(url) + ")"@,
        InlineV::Image(img) => "image(alt="@ + spec_debug_str(img.alt) + ", title="@ + optional_value(img.title)
            + ", mime_type="@ + spec_debug_str(img.mime_type) + ", extension="@ + spec_debug_str(img.extension)
            + ", bytes="@ + decimal(img.data.len()) + ")"@,
        InlineV::HardBreak => "hard_break"@,
    }
}

/// Inlines in the dump, separated by commas.
pub open spec fn spec_dump_inline_items(s: Seq<InlineV>) -> Seq<char>
    decreases s, 0int,
{
    if s.len() == 0 {
        seq![]
    } else if s.len() == 1 {
        spec_dump_inline(s[0])
    } else {
        spec_dump_inline_items(s.drop_last()) + ", "@ + spec_dump_inline(s.last())
    }
}

/// Inlines in the dump, in brackets.
pub open spec fn spec_dump_inlines(s: Seq<InlineV>) -> Seq<char>
    decreases s, 1int,
{
    "["@ + spec_dump_inline_items(s) + "]"@
}

/// Cells in the dump, separated by commas.
pub open spec fn spec_dump_cells(cells: Seq<Seq<InlineV>>) -> Seq<char>
    decreases cells.len(),
{
    if cells.len() == 0 {
        seq![]
    } else if cells.len() == 1 {
        spec_dump_inlines(cells[0])
    } else {
        spec_dump_cells(cells.drop_last()) + ", "@ + spec_dump_inlines(cells.last())
    }
}

/// Alignments in the dump, separated by commas.
pub open spec fn spec_dump_aligns(a: Seq<TableAlignment>) -> Seq<char>
    decreases a.len(),
{
    if a.len() == 0 {
        seq![]
    } else if a.len() == 1 {
        align_text(a[0])
    } else {
        spec_dump_aligns(a.drop_last()) + ", "@ + align_text(a.last())
    }
}

/// The rows of a table in the dump, one line each.
pub open spec fn spec_dump_rows(rows: Seq<Seq<Seq<InlineV>>>, level: usize) -> Seq<char>
    decreases rows.len(),
{
    if rows.len() == 0 {
        seq![]
    } else {
        spec_dump_rows(rows.drop_last(), level) + indentation(level as nat) + "["@ + spec_dump_cells(rows.last()) + "]\n"@
    }
}

/// A block in the dump at an indentation level.
pub open spec fn spec_dump_block(b: BlockV, level: usize) -> Seq<char>
    decreases b,
{
    let ind = indentation(level as nat);
    match b {
        BlockV::Paragraph(c) => ind + "paragraph("@ + spec_dump_inlines(c) + ")\n"@,
        BlockV::Heading { level: l, content } => ind + "heading(level="@ + decimal(l as nat) + ", content="@
            + spec_dump_inlines(content) + ")\n"@,
        BlockV::BlockQuote(inner) => ind + "blockquote:\n"@ + spec_dump_blocks(inner, deeper(level)),
        BlockV::CodeBlock { language, code } => ind + "code_block(language="@ + optional_value(language) + ", code="@
            + spec_debug_str(code) + ")\n"@,
        BlockV::List(l) => ind + "list(ordered="@ + bool_text(l.ordered) + ", start_index="@ + decimal(l.start_index as nat)
            + "):\n"@ + spec_dump_items(l.items, deeper(level)),
        BlockV::Table(t) => ind + spec_dump_table_rest(t, level),
        BlockV::ThematicBreak => ind + "thematic_break\n"@,
    }
}

/// Blocks in the dump.
pub open spec fn spec_dump_blocks(bs: Seq<BlockV>, level: usize) -> Seq<char>
    decreases bs,
{
    if bs.len() == 0 { seq![] } else { spec_dump_blocks(bs.drop_last(), level) + spec_dump_block(bs.last(), level) }
}

/// List items in the dump.
pub open spec fn spec_dump_items(items: Seq<Seq<BlockV>>, level: usize) -> Seq<char>
    decreases items,
{
    if items.len() == 0 {
        seq![]
    } else {
        spec_dump_items(items.drop_last(), level) + indentation(level as nat) + "item:\n"@
            + spec_dump_blocks(items.last(), deeper(level))
    }
}

pub open spec fn spec_dump_field(name: Seq<char>, v: Option<Seq<char>>) -> Seq<char> {
    indentation(1) + name + ": "@ + optional_value(v) + "\n"@
}

/// The dump of a parsed package: its metadata, then its blocks one level in.
pub open spec fn spec_dump(blocks: Seq<BlockV>, m: MetadataV) -> Seq<char> {
    "metadata:\n"@ + spec_dump_field("title"@, m.title) + spec_dump_field("language"@, m.language)
        + spec_dump_field("creator"@, m.creator) + spec_dump_field("lastsaveby"@, m.lastsaveby) + "document:\n"@
        + spec_dump_blocks(blocks, 1)
}

fn next_level(level: usize) -> (r: usize)
    ensures
        r == deeper(level),
{
    if level < usize::MAX { level + 1 } else { level }
}

fn append_indentation(out: &mut String, level: usize)
    ensures
        final(out)@ == old(out)@ + indentation(level as nat),
{
    let ghost start = out@;
    let mut k: usize = 0;
    while k < level
        invariant
            k <= level,
            out@ == start + indentation(k as nat),
        decreases level - k,
    {
        out.append("  ");
        k += 1;
    }
}

fn append_optional(out: &mut String, v: &Option<String>)
    ensures
        final(out)@ == old(out)@ + optional_value(opt_string_view(*v)),
{
    match v {
        Some(t) => {
            let q = debug_quoted(t.as_str());
            out.append(q.as_str());
        },
        None => out.append("null"),
    }
}

fn append_inline(out: &mut String, inline: &Inline)
    ensures
        final(out)@ == old(out)@ + spec_dump_inline(inline@),
    decreases inline,
{
    let ghost start = out@;
    match inline {
        Inline::Text(t) => {
            out.append("text(");
            let q = debug_quoted(t.as_str());
            out.append(q.as_str());
            out.append(")");
        },
        Inline::Emphasis(c) => {
            out.append("emphasis(");
            append_inlines(out, c);
            out.append(")");
        },
        Inline::Strong(c) => {
            out.append("strong(");
            append_inlines(out, c);
            out.append(")");
        },
        Inline::Code(c) => {
            out.append("code(");
            let q = debug_quoted(c.as_str());
            out.append(q.as_str());
            out.append(")");
        },
        Inline::Link { text, url } => {
            out.append("link(text=");
            append_inlines(out, text);
            out.append(", url=");
            let q = debug_quoted(url.as_str());
            out.append(q.as_str());
            out.append(")");
        },
        Inline::Image(img) => {
            out.append("image(alt=");
            let q = debug_quoted(img.alt.as_str());
            out.append(q.as_str());
            out.append(", title=");
            append_optional(out, &img.title);
            out.append(", mime_type=");
            let q = debug_quoted(img.mime_type.as_str());
            out.append(q.as_str());
            out.append(", extension=");
            let q = debug_quoted(img.extension.as_str());
            out.append(q.as_str());
            out.append(", bytes=");
            append_decimal(out, img.data.len() as u64);
            out.append(")");
        },
        Inline::HardBreak => out.append("hard_break"),
    }
    assert(out@ =~= start + spec_dump_inline(inline@));
}

fn append_inlines(out: &mut String, inlines: &Vec<Inline>)
    ensures
        final(out)@ == old(out)@ + spec_dump_inlines(inlines_view(inlines@)),
    decreases inlines,
{
    let ghost start = out@;
    let ghost v = inlines_view(inlines@);
    out.append("[");
    let mut i: usize = 0;
    while i < inlines.len()
        invariant
            i <= inlines.len(),
            v == inlines_view(inlines@),
            out@ == start + "["@ + spec_dump_inline_items(v.take(i as int)),
        decreases inlines.len() - i,
    {
        assert(v.take(i + 1).drop_last() == v.take(i as int));
        assert(v.take(i + 1).last() == inlines@[i as int]@);
        proof {
            assert(decreases_to!(inlines => inlines@));
            assert(decreases_to!(inlines@ => inlines@[i as int]));
        }
        if i > 0 {
            out.append(", ");
        }
        append_inline(out, &inlines[i]);
        assert(out@ =~= start + "["@ + spec_dump_inline_items(v.take(i + 1)));
        i += 1;
    }
    assert(v.take(v.len() as int) == v);
    out.append("]");
    assert(out@ =~= start + spec_dump_inlines(v));
}

fn append_cells(out: &mut String, cells: &Vec<Vec<Inline>>)
    ensures
        final(out)@ == old(out)@ + spec_dump_cells(cells_view(cells@)),
{
    let ghost start = out@;
    let ghost v = cells_view(cells@);
    let mut i: usize = 0;
    while i < cells.len()
        invariant
            i <= cells.len(),
            v == cells_view(cells@),
            out@ == start + spec_dump_cells(v.take(i as int)),
        decreases cells.len() - i,
    {
        assert(v.take(i + 1).drop_last() =~= v.take(i as int));
        if i > 0 {
            out.append(", ");
        }
        append_inlines(out, &cells[i]);
        assert(out@ =~= start + spec_dump_cells(v.take(i + 1)));
        i += 1;
    }
    assert(v.take(v.len() as int) =~= v);
}

fn append_aligns(out: &mut String, aligns: &Vec<TableAlignment>)
    ensures
        final(out)@ == old(out)@ + spec_dump_aligns(aligns@),
{
    let ghost start = out@;
    let mut i: usize = 0;
    while i < aligns.len()
        invariant
            i <= aligns.len(),
            out@ == start + spec_dump_aligns(aligns@.take(i as int)),
        decreases aligns.len() - i,
    {
        assert(aligns@.take(i + 1).drop_last() =~= aligns@.take(i as int));
        if i > 0 {
            out.append(", ");
        }
        match aligns[i] {
            TableAlignment::Unaligned => out.append("None"),
            TableAlignment::Left => out.append("Left"),
            TableAlignment::Center => out.append("Center"),
            TableAlignment::Right => out.append("Right"),
        }
        assert(out@ =~= start + spec_dump_aligns(aligns@.take(i + 1)));
        i += 1;
    }
    assert(aligns@.take(aligns.len() as int) =~= aligns@);
}

fn append_rows(out: &mut String, rows: &Vec<TableRow>, level: usize)
    ensures
        final(out)@ == old(out)@ + spec_dump_rows(rows_view(rows@), level),
{
    let ghost start = out@;
    let ghost v = rows_view(rows@);
    let mut i: usize = 0;
    while i < rows.len()
        invariant
            i <= rows.len(),
            v == rows_view(rows@),
            out@ == start + spec_dump_rows(v.take(i as int), level),
        decreases rows.len() - i,
    {
        assert(v.take(i + 1).drop_last() =~= v.take(i as int));
        append_indentation(out, level);
        out.append("[");
        append_cells(out, &rows[i].cells);
        out.append("]\n");
        assert(out@ =~= start + spec_dump_rows(v.take(i + 1), level));
        i += 1;
    }
    assert(v.take(v.len() as int) =~= v);
}

/// The dump of a table after its first indentation.
pub open spec fn spec_dump_table_rest(t: crate::models::block::TableBlockV, level: usize) -> Seq<char> {
    let ind = indentation(level as nat);
    "table:\n"@ + ind + "  aligns: ["@ + spec_dump_aligns(t.aligns) + "]\n"@ + ind + "  headers: ["@
        + spec_dump_cells(t.headers) + "]\n"@ + ind + "  rows:\n"@ + spec_dump_rows(t.rows, deeper(deeper(level)))
}

fn append_table(out: &mut String, t: &crate::models::block::TableBlock, level: usize)
    ensures
        final(out)@ == old(out)@ + spec_dump_table_rest(crate::models::block::table_view(*t), level),
{
    let ghost start = out@;
    out.append("table:\n");
    append_indentation(out, level);
    out.append("  aligns: [");
    append_aligns(out, &t.aligns);
    out.append("]\n");
    append_indentation(out, level);
    out.append("  headers: [");
    append_cells(out, &t.headers);
    out.append("]\n");
    append_indentation(out, level);
    out.append("  rows:\n");
    append_rows(out, &t.rows, next_level(next_level(level)));
    assert(out@ =~= start + spec_dump_table_rest(crate::models::block::table_view(*t), level));
}

fn append_block(out: &mut String, block: &Block, level: usize)
    ensures
        final(out)@ == old(out)@ + spec_dump_block(block@, level),
    decreases block,
{
    let ghost start = out@;
    append_indentation(out, level);
    match block {
        Block::Paragraph(c) => {
            out.append("paragraph(");
            append_inlines(out, c);
            out.append(")\n");
        },
        Block::Heading { level: l, content } => {
            out.append("heading(level=");
            append_decimal(out, *l as u64);
            out.append(", content=");
            append_inlines(out, content);
            out.append(")\n");
        },
        Block::BlockQuote(inner) => {
            out.append("blockquote:\n");
            append_blocks(out, inner, next_level(level));
        },
        Block::CodeBlock { language, code } => {
            out.append("code_block(language=");
            append_optional(out, language);
            out.append(", code=");
            let q = debug_quoted(code.as_str());
            out.append(q.as_str());
            out.append(")\n");
        },
        Block::List(l) => {
            out.append("list(ordered=");
            if l.ordered {
                out.append("true");
            } else {
                out.append("false");
            }
            out.append(", start_index=");
            append_decimal(out, l.start_index);
            out.append("):\n");
            append_items(out, &l.items, next_level(level));
        },
        Block::Table(t) => append_table(out, t, level),
        Block::ThematicBreak => out.append("thematic_break\n"),
    }
    assert(out@ =~= start + spec_dump_block(block@, level));
}

fn append_blocks(out: &mut String, blocks: &Vec<Block>, level: usize)
    ensures
        final(out)@ == old(out)@ + spec_dump_blocks(blocks_view(blocks@), level),
    decreases blocks,
{
    let ghost start = out@;
    let ghost v = blocks_view(blocks@);
    let mut i: usize = 0;
    while i < blocks.len()
        invariant
            i <= blocks.len(),
            v == blocks_view(blocks@),
            out@ == start + spec_dump_blocks(v.take(i as int), level),
        decreases blocks.len() - i,
    {
        assert(v.take(i + 1).drop_last() == v.take(i as int));
        assert(v.take(i + 1).last() == blocks@[i as int]@);
        proof {
            assert(decreases_to!(blocks => blocks@));
            assert(decreases_to!(blocks@ => blocks@[i as int]));
        }
        append_block(out, &blocks[i], level);
        i += 1;
    }
    assert(v.take(v.len() as int) == v);
}

fn append_items(out: &mut String, items: &Vec<ListItem>, level: usize)
    ensures
        final(out)@ == old(out)@ + spec_dump_items(items_view(items@), level),
    decreases items,
{
    let ghost start = out@;
    let ghost v = items_view(items@);
    let mut i: usize = 0;
    while i < items.len()
        invariant
            i <= items.len(),
            v == items_view(items@),
            out@ == start + spec_dump_items(v.take(i as int), level),
        decreases items.len() - i,
    {
        assert(v.take(i + 1).drop_last() == v.take(i as int));
        assert(v.take(i + 1).last() == blocks_view(items@[i as int].blocks@));
        proof {
            assert(decreases_to!(items => items@));
            assert(decreases_to!(items@ => items@[i as int]));
            assert(decreases_to!(items@[i as int] => items@[i as int].blocks));
        }
        append_indentation(out, level);
        out.append("item:\n");
        append_blocks(out, &items[i].blocks, next_level(level));
        i += 1;
    }
    assert(v.take(v.len() as int) == v);
}

fn append_field(out: &mut String, name: &str, v: &Option<String>)
    ensures
        final(out)@ == old(out)@ + spec_dump_field(name@, opt_string_view(*v)),
{
    let ghost start = out@;
    append_indentation(out, 1);
    out.append(name);
    out.append(": ");
    append_optional(out, v);
    out.append("\n");
    assert(out@ =~= start + spec_dump_field(name@, opt_string_view(*v)));
}

/// The dump of a parsed package.
pub fn render(parsed: &ParsedHwpx) -> (s: String)
    ensures
        s@ == spec_dump(parsed.document@, parsed.metadata@),
{
    let mut out = String::new();
    out.append("metadata:\n");
    append_field(&mut out, "title", &parsed.metadata.title);
    append_field(&mut out, "language", &parsed.metadata.language);
    append_field(&mut out, "creator", &parsed.metadata.creator);
    append_field(&mut out, "lastsaveby", &parsed.metadata.lastsaveby);
    out.append("document:\n");
    append_blocks(&mut out, &parsed.document.blocks, 1);
    assert(out@ =~= spec_dump(parsed.document@, parsed.metadata@));
    out
}

} // verus!
