//! The markup that the DOCX renderer produces for each part of the document model.
use vstd::prelude::*;
use crate::error::ErrorV;
use crate::generators::docx::render::ImageAssetV;
use crate::generators::docx::xml_builder::{
    RunStyle, spec_image_run, spec_paragraph, spec_plain_style, spec_text_run,
};
use crate::models::block::{BlockV, ListBlockV, TableAlignment, TableBlockV};
use crate::models::inline::{ImageDataV, InlineV};
use crate::utils::image_helper::spec_image_dimensions;
use crate::utils::text::{decimal, spec_contains, spec_find_from};
use crate::utils::xml_helper::spec_escape_attr;

verus! {

/// What rendering has collected so far: hyperlink targets and embedded images, in
/// order of appearance.
#[verifier::ext_equal]
pub struct CtxV {
    pub links: Seq<Seq<char>>,
    pub images: Seq<ImageAssetV>,
}

/// The markup of a part and the collected context after it, or the first error.
pub type Out = Result<(Seq<char>, CtxV), ErrorV>;

/// One more than `n`, or `n` at the largest `usize`.
pub open spec fn succ_sat(n: nat) -> nat {
    if n < usize::MAX { n + 1 } else { n }
}

/// `a + b`, or the largest `usize` when the sum exceeds it.
pub open spec fn add_sat(a: nat, b: nat) -> nat {
    if a + b <= usize::MAX { a + b } else { usize::MAX as nat }
}

pub open spec fn quote_left_border() -> Seq<char> {
    "<w:left w:val=\"single\" w:sz=\"8\" w:space=\"8\" w:color=\"B7B7B7\"/>"@
}

pub open spec fn quote_border_properties() -> Seq<char> {
    "<w:pBdr><w:left w:val=\"single\" w:sz=\"8\" w:space=\"8\" w:color=\"B7B7B7\"/></w:pBdr>"@
}

/// Whether paragraph properties carry the block quote border.
pub open spec fn spec_has_quote_border(p: Seq<char>) -> bool {
    spec_contains(p, quote_left_border())
}

/// Paragraph properties of nested content: the quote border is not repeated.
pub open spec fn spec_join_properties(first: Seq<char>, second: Seq<char>) -> Seq<char> {
    if spec_has_quote_border(first) && spec_has_quote_border(second) {
        first
    } else {
        first + second
    }
}

pub open spec fn ind_left(indent: nat) -> Seq<char> {
    if indent > 0 { "<w:ind w:left=\""@ + decimal(indent) + "\"/>"@ } else { seq![] }
}

pub open spec fn ind_hanging(indent: nat) -> Seq<char> {
    "<w:ind w:left=\""@ + decimal(indent) + "\" w:hanging=\"360\"/>"@
}

pub open spec fn heading_style(level: u8) -> Seq<char> {
    "Heading"@ + decimal(level as nat)
}

pub open spec fn prefix_run(prefix: Option<Seq<char>>) -> Seq<char> {
    match prefix {
        Some(p) => spec_text_run(p, spec_plain_style()),
        None => seq![],
    }
}

/// Runs of inlines, in order.
pub open spec fn spec_render_inlines(s: Seq<InlineV>, ctx: CtxV, style: RunStyle) -> Out
    decreases s,
{
    if s.len() == 0 {
        Ok((seq![], ctx))
    } else {
        match spec_render_inlines(s.drop_last(), ctx, style) {
            Err(e) => Err(e),
            Ok((x, c1)) => match spec_render_inline(s.last(), c1, style) {
                Err(e) => Err(e),
                Ok((y, c2)) => Ok((x + y, c2)),
            },
        }
    }
}

/// The runs of one inline: text with its style; spans add to the style; a link is
/// a hyperlink numbered by its place among the links; an image is a picture.
pub open spec fn spec_render_inline(i: InlineV, ctx: CtxV, style: RunStyle) -> Out
    decreases i,
{
    match i {
        InlineV::Text(t) => Ok((spec_text_run(t, style), ctx)),
        InlineV::Code(t) => Ok((spec_text_run(t, RunStyle { code: true, ..style }), ctx)),
        InlineV::Emphasis(c) => spec_render_inlines(c, ctx, RunStyle { italic: true, ..style }),
        InlineV::Strong(c) => spec_render_inlines(c, ctx, RunStyle { bold: true, ..style }),
        InlineV::Link { text, url } => {
            let rid = "rLink"@ + decimal(succ_sat(ctx.links.len()));
            let c1 = CtxV { links: ctx.links.push(url), ..ctx };
            match spec_render_inlines(text, c1, RunStyle { hyperlink: true, ..style }) {
                Err(e) => Err(e),
                Ok((x, c2)) => Ok((
                    "<w:hyperlink r:id=\""@ + spec_escape_attr(rid) + "\" w:history=\"1\">"@ + x + "</w:hyperlink>"@,
                    c2,
                )),
            }
        },
        InlineV::Image(img) => spec_render_image(img, ctx),
        InlineV::HardBreak => Ok(("<w:r><w:br/></w:r>"@, ctx)),
    }
}

/// An image: numbered by its place among the images, sized from its header at 9525
/// EMU per pixel, and added to the package.
pub open spec fn spec_render_image(img: ImageDataV, ctx: CtxV) -> Out {
    let n = succ_sat(ctx.images.len());
    let rid = "rImage"@ + decimal(n);
    let target = "word/media/image"@ + decimal(n) + "."@ + img.extension;
    match spec_image_dimensions(img.mime_type, img.data) {
        Err(e) => Err(e),
        Ok((w, h)) => Ok((
            spec_image_run(rid, img.alt, n, n, (w * 9525) as int, (h * 9525) as int),
            CtxV {
                images: ctx.images.push(
                    ImageAssetV {
                        relationship_id: rid,
                        target,
                        extension: img.extension,
                        mime_type: img.mime_type,
                        data: img.data,
                    },
                ),
                ..ctx
            },
        )),
    }
}

/// A paragraph of inlines, with an optional style, indent and leading prefix run.
pub open spec fn spec_text_paragraph(
    content: Seq<InlineV>,
    style_id: Option<Seq<char>>,
    indent: nat,
    extra: Seq<char>,
    ctx: CtxV,
    prefix: Option<Seq<char>>,
) -> Out {
    let props = (match style_id {
        Some(id) => "<w:pStyle w:val=\""@ + id + "\"/>"@,
        None => seq![],
    }) + ind_left(indent) + extra;
    match spec_render_inlines(content, ctx, spec_plain_style()) {
        Err(e) => Err(e),
        Ok((x, c)) => Ok((spec_paragraph(props, prefix_run(prefix) + x), c)),
    }
}

/// The lines of a text, as `str::lines` yields them: split at each newline, with a
/// carriage return before it removed; a newline at the very end starts no line.
pub open spec fn spec_lines(s: Seq<char>) -> Seq<Seq<char>>
    decreases s.len(),
{
    if s.len() == 0 {
        seq![]
    } else {
        match spec_find_from(s, 0, '\n') {
            None => seq![s],
            Some(i) => {
                proof {
                    crate::parser::markdown::data_image::lemma_find_from_range(s, 0, '\n');
                }
                seq![strip_cr(s.take(i))] + spec_lines(s.skip(i + 1))
            },
        }
    }
}

/// A line without a carriage return at its end.
pub open spec fn strip_cr(l: Seq<char>) -> Seq<char> {
    if l.len() > 0 && l.last() == '\r' { l.drop_last() } else { l }
}

pub open spec fn code_style() -> RunStyle {
    RunStyle { code: true, ..spec_plain_style() }
}

/// The runs of code lines, separated by breaks (also after a prefix).
pub open spec fn spec_code_lines(lines: Seq<Seq<char>>, has_prefix: bool) -> Seq<char>
    decreases lines.len(),
{
    if lines.len() == 0 {
        seq![]
    } else {
        spec_code_lines(lines.drop_last(), has_prefix) + (if lines.len() > 1 || has_prefix {
            "<w:r><w:br/></w:r>"@
        } else {
            seq![]
        }) + spec_text_run(lines.last(), code_style())
    }
}

/// A code block: one shaded paragraph, a line break between lines.
pub open spec fn spec_code_block(code: Seq<char>, indent: nat, prefix: Option<Seq<char>>, extra: Seq<char>) -> Seq<char> {
    let content = prefix_run(prefix) + spec_code_lines(spec_lines(code), prefix is Some);
    let props = "<w:ind w:left=\""@ + decimal(add_sat(indent, 360)) + "\"/>"@ + extra
        + "<w:shd w:val=\"clear\" w:color=\"auto\" w:fill=\"F4F4F4\"/><w:spacing w:before=\"120\" w:after=\"120\"/>"@;
    spec_paragraph(props, content)
}

/// The paragraph properties of a thematic break.
pub open spec fn spec_thematic_break_properties(indent: nat, extra: Seq<char>) -> Seq<char> {
    ind_left(indent) + if spec_has_quote_border(extra) {
        "<w:pBdr><w:left w:val=\"single\" w:sz=\"8\" w:space=\"8\" w:color=\"B7B7B7\"/><w:bottom w:val=\"single\" w:sz=\"6\" w:space=\"1\" w:color=\"auto\"/></w:pBdr>"@
    } else {
        extra + "<w:pBdr><w:bottom w:val=\"single\" w:sz=\"6\" w:space=\"1\" w:color=\"auto\"/></w:pBdr>"@
    }
}

/// A paragraph that holds only a list marker.
pub open spec fn spec_marker_paragraph(prefix: Seq<char>, indent: nat, extra: Seq<char>) -> Seq<char> {
    let props = (if indent > 0 { ind_hanging(indent) } else { seq![] }) + extra;
    spec_paragraph(props, spec_text_run(prefix + seq!['\u{200B}'], spec_plain_style()))
}

/// The marker of the list item at `index`.
pub open spec fn spec_list_prefix(l: ListBlockV, indent: nat, index: nat) -> Seq<char> {
    if l.ordered {
        decimal(if l.start_index + index <= u64::MAX { (l.start_index + index) as nat } else { u64::MAX as nat })
            + ". "@
    } else if indent == 0 {
        "\u{2022} "@
    } else {
        "\u{25E6} "@
    }
}

/// The paragraph properties of a table cell's alignment.
pub open spec fn align_properties(a: TableAlignment) -> Seq<char> {
    match a {
        TableAlignment::Unaligned => seq![],
        TableAlignment::Left => "<w:jc w:val=\"left\"/>"@,
        TableAlignment::Center => "<w:jc w:val=\"center\"/>"@,
        TableAlignment::Right => "<w:jc w:val=\"right\"/>"@,
    }
}

pub open spec fn column_alignment(aligns: Seq<TableAlignment>, k: int) -> TableAlignment {
    if 0 <= k < aligns.len() { aligns[k] } else { TableAlignment::Unaligned }
}

/// The cells of a table row; header cells are bold and shaded.
pub open spec fn spec_row_cells(cells: Seq<Seq<InlineV>>, aligns: Seq<TableAlignment>, header: bool, ctx: CtxV) -> Out
    decreases cells.len(),
{
    if cells.len() == 0 {
        Ok((seq![], ctx))
    } else {
        match spec_row_cells(cells.drop_last(), aligns, header, ctx) {
            Err(e) => Err(e),
            Ok((x, c1)) => match spec_render_inlines(cells.last(), c1, RunStyle { bold: header, ..spec_plain_style() }) {
                Err(e) => Err(e),
                Ok((runs, c2)) => Ok((
                    x + "<w:tc><w:tcPr>"@ + (if header {
                        "<w:shd w:val=\"clear\" w:color=\"auto\" w:fill=\"EFEFEF\"/>"@
                    } else {
                        seq![]
                    }) + "</w:tcPr>"@ + spec_paragraph(align_properties(column_alignment(aligns, cells.len() - 1)), runs)
                        + "</w:tc>"@,
                    c2,
                )),
            },
        }
    }
}

pub open spec fn spec_table_row(cells: Seq<Seq<InlineV>>, aligns: Seq<TableAlignment>, header: bool, ctx: CtxV) -> Out {
    match spec_row_cells(cells, aligns, header, ctx) {
        Err(e) => Err(e),
        Ok((x, c)) => Ok(("<w:tr>"@ + x + "</w:tr>"@, c)),
    }
}

/// The body rows of a table.
pub open spec fn spec_table_rows(rows: Seq<Seq<Seq<InlineV>>>, aligns: Seq<TableAlignment>, ctx: CtxV) -> Out
    decreases rows.len(),
{
    if rows.len() == 0 {
        Ok((seq![], ctx))
    } else {
        match spec_table_rows(rows.drop_last(), aligns, ctx) {
            Err(e) => Err(e),
            Ok((x, c1)) => match spec_table_row(rows.last(), aligns, false, c1) {
                Err(e) => Err(e),
                Ok((y, c2)) => Ok((x + y, c2)),
            },
        }
    }
}

pub open spec fn spec_repeat(s: Seq<char>, n: nat) -> Seq<char>
    decreases n,
{
    if n == 0 { seq![] } else { spec_repeat(s, (n - 1) as nat) + s }
}

pub open spec fn spec_table_properties(indent: nat, extra: Seq<char>) -> Seq<char> {
    let left = if spec_has_quote_border(extra) {
        "<w:left w:val=\"single\" w:sz=\"8\" w:space=\"8\" w:color=\"B7B7B7\"/>"@
    } else {
        "<w:left w:val=\"single\" w:sz=\"4\" w:space=\"0\" w:color=\"A0A0A0\"/>"@
    };
    "<w:tblW w:w=\"0\" w:type=\"auto\"/><w:tblBorders><w:top w:val=\"single\" w:sz=\"4\" w:space=\"0\" w:color=\"A0A0A0\"/>"@
        + left
        + "<w:bottom w:val=\"single\" w:sz=\"4\" w:space=\"0\" w:color=\"A0A0A0\"/><w:right w:val=\"single\" w:sz=\"4\" w:space=\"0\" w:color=\"A0A0A0\"/><w:insideH w:val=\"single\" w:sz=\"4\" w:space=\"0\" w:color=\"D0D0D0\"/><w:insideV w:val=\"single\" w:sz=\"4\" w:space=\"0\" w:color=\"D0D0D0\"/></w:tblBorders>"@
        + (if indent > 0 { "<w:tblInd w:w=\""@ + decimal(indent) + "\" w:type=\"dxa\"/>"@ } else { seq![] })
}

/// A table: an optional marker paragraph, then the grid with its header row first.
pub open spec fn spec_render_table(t: TableBlockV, ctx: CtxV, indent: nat, prefix: Option<Seq<char>>, extra: Seq<char>) -> Out {
    let marker = match prefix {
        Some(p) => spec_marker_paragraph(p, indent, extra),
        None => seq![],
    };
    match spec_table_row(t.headers, t.aligns, true, ctx) {
        Err(e) => Err(e),
        Ok((hx, c1)) => match spec_table_rows(t.rows, t.aligns, c1) {
            Err(e) => Err(e),
            Ok((rx, c2)) => {
                let columns = if t.aligns.len() >= t.headers.len() { t.aligns.len() } else { t.headers.len() };
                Ok((
                    marker + "<w:tbl><w:tblPr>"@ + spec_table_properties(indent, extra) + "</w:tblPr><w:tblGrid>"@
                        + spec_repeat("<w:gridCol w:w=\"2400\"/>"@, columns) + "</w:tblGrid>"@ + hx + rx + "</w:tbl>"@,
                    c2,
                ))
            },
        },
    }
}

/// A block at an indent, with an optional leading prefix run and extra paragraph
/// properties.
pub open spec fn spec_render_block(b: BlockV, ctx: CtxV, indent: nat, prefix: Option<Seq<char>>, extra: Seq<char>) -> Out
    decreases b, 0int,
{
    match b {
        BlockV::Paragraph(content) => spec_text_paragraph(content, None, indent, extra, ctx, prefix),
        BlockV::Heading { level, content } => spec_text_paragraph(content, Some(heading_style(level)), indent, extra, ctx, prefix),
        BlockV::BlockQuote(blocks) => spec_render_quote(
            blocks,
            ctx,
            add_sat(indent, 720),
            prefix,
            spec_join_properties(extra, quote_border_properties()),
        ),
        BlockV::CodeBlock { code, .. } => Ok((spec_code_block(code, indent, prefix, extra), ctx)),
        BlockV::List(l) => spec_render_items(l, l.items, ctx, indent, prefix, extra),
        BlockV::Table(t) => spec_render_table(t, ctx, indent, prefix, extra),
        BlockV::ThematicBreak => Ok((spec_paragraph(spec_thematic_break_properties(indent, extra), prefix_run(prefix)), ctx)),
    }
}

/// The blocks of a quote, at the quote's indent and properties; the prefix goes to
/// the first block only.
pub open spec fn spec_render_quote(blocks: Seq<BlockV>, ctx: CtxV, indent: nat, prefix: Option<Seq<char>>, props: Seq<char>) -> Out
    decreases blocks, 0int,
{
    if blocks.len() == 0 {
        Ok((seq![], ctx))
    } else {
        match spec_render_quote(blocks.drop_last(), ctx, indent, prefix, props) {
            Err(e) => Err(e),
            Ok((x, c1)) => match spec_render_block(
                blocks.last(),
                c1,
                indent,
                if blocks.len() == 1 { prefix } else { None },
                props,
            ) {
                Err(e) => Err(e),
                Ok((y, c2)) => Ok((x + y, c2)),
            },
        }
    }
}

/// The items of a list; the first item may take its marker from the caller.
pub open spec fn spec_render_items(
    l: ListBlockV,
    items: Seq<Seq<BlockV>>,
    ctx: CtxV,
    indent: nat,
    first_prefix: Option<Seq<char>>,
    extra: Seq<char>,
) -> Out
    decreases items, 0int,
{
    if items.len() == 0 {
        Ok((seq![], ctx))
    } else {
        match spec_render_items(l, items.drop_last(), ctx, indent, first_prefix, extra) {
            Err(e) => Err(e),
            Ok((x, c1)) => {
                let index = (items.len() - 1) as nat;
                let prefix = if index == 0 {
                    match first_prefix {
                        Some(p) => p,
                        None => spec_list_prefix(l, indent, 0),
                    }
                } else {
                    spec_list_prefix(l, indent, index)
                };
                match spec_render_item(items.last(), prefix, c1, add_sat(indent, 720), extra) {
                    Err(e) => Err(e),
                    Ok((y, c2)) => Ok((x + y, c2)),
                }
            },
        }
    }
}

/// The blocks of a list item; its first block carries the marker.
pub open spec fn spec_render_item(blocks: Seq<BlockV>, prefix: Seq<char>, ctx: CtxV, indent: nat, extra: Seq<char>) -> Out
    decreases blocks, 0int,
{
    if blocks.len() == 0 {
        Ok((seq![], ctx))
    } else {
        match spec_render_item(blocks.drop_last(), prefix, ctx, indent, extra) {
            Err(e) => Err(e),
            Ok((x, c1)) => match (if blocks.len() == 1 {
                spec_render_item_first(blocks.last(), prefix, c1, indent, extra)
            } else {
                spec_render_block(blocks.last(), c1, indent, None, extra)
            }) {
                Err(e) => Err(e),
                Ok((y, c2)) => Ok((x + y, c2)),
            },
        }
    }
}

/// The first block of a list item: a paragraph or heading starts with the marker
/// and hangs; a nested list follows a marker paragraph.
pub open spec fn spec_render_item_first(b: BlockV, prefix: Seq<char>, ctx: CtxV, indent: nat, extra: Seq<char>) -> Out
    decreases b, 1int,
{
    match b {
        BlockV::Paragraph(content) => spec_text_paragraph(content, None, 0, ind_hanging(indent) + extra, ctx, Some(prefix)),
        BlockV::Heading { level, content } => spec_text_paragraph(
            content,
            None,
            0,
            "<w:pStyle w:val=\""@ + heading_style(level) + "\"/>"@ + ind_hanging(indent) + extra,
            ctx,
            Some(prefix),
        ),
        BlockV::List(l) => match spec_render_items(l, l.items, ctx, indent, None, extra) {
            Err(e) => Err(e),
            Ok((x, c)) => Ok((spec_marker_paragraph(prefix, indent, extra) + x, c)),
        },
        _ => spec_render_block(b, ctx, indent, Some(prefix), extra),
    }
}

/// The body of the document: each top-level block, unindented.
pub open spec fn spec_render_blocks(blocks: Seq<BlockV>, ctx: CtxV) -> Out
    decreases blocks.len(),
{
    if blocks.len() == 0 {
        Ok((seq![], ctx))
    } else {
        match spec_render_blocks(blocks.drop_last(), ctx) {
            Err(e) => Err(e),
            Ok((x, c1)) => match spec_render_block(blocks.last(), c1, 0, None, seq![]) {
                Err(e) => Err(e),
                Ok((y, c2)) => Ok((x + y, c2)),
            },
        }
    }
}

pub open spec fn max_u8(a: u8, b: u8) -> u8 {
    if a >= b { a } else { b }
}

/// The deepest heading level in blocks, quotes and list items (not tables).
pub open spec fn spec_max_heading(blocks: Seq<BlockV>) -> u8
    decreases blocks,
{
    if blocks.len() == 0 {
        0
    } else {
        max_u8(spec_max_heading(blocks.drop_last()), spec_max_heading_one(blocks.last()))
    }
}

pub open spec fn spec_max_heading_one(b: BlockV) -> u8
    decreases b,
{
    match b {
        BlockV::Heading { level, .. } => level,
        BlockV::BlockQuote(inner) => spec_max_heading(inner),
        BlockV::List(l) => spec_max_heading_items(l.items),
        _ => 0,
    }
}

pub open spec fn spec_max_heading_items(items: Seq<Seq<BlockV>>) -> u8
    decreases items,
{
    if items.len() == 0 {
        0
    } else {
        max_u8(spec_max_heading_items(items.drop_last()), spec_max_heading(items.last()))
    }
}

} // verus!
