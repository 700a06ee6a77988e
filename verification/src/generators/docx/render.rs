//! Rendering the document model as WordprocessingML.
use vstd::prelude::*;
use crate::error::{CoreRsError, ErrorV};
use crate::generators::docx::markup::{
    CtxV, Out, succ_sat, add_sat, quote_left_border, quote_border_properties, spec_has_quote_border, spec_join_properties, ind_left, ind_hanging, heading_style, prefix_run, spec_render_inlines, spec_render_inline, spec_render_image, spec_text_paragraph, spec_lines, strip_cr, code_style, spec_code_lines, spec_code_block, spec_thematic_break_properties, spec_marker_paragraph, spec_list_prefix, align_properties, column_alignment, spec_row_cells, spec_table_row, spec_table_rows, spec_repeat, spec_table_properties, spec_render_table, spec_render_block, spec_render_quote, spec_render_items, spec_render_item, spec_render_item_first, spec_render_blocks, max_u8, spec_max_heading, spec_max_heading_one, spec_max_heading_items,
};
use crate::generators::docx::xml_builder::{
    RunStyle, image_run, paragraph_with_properties, spec_plain_style, text_run,
};
use crate::models::block::{Block, ListBlock, ListItem, TableAlignment, TableBlock, TableRow, blocks_view, cells_view, rows_view};
use crate::models::inline::{ImageData, Inline, InlineV, inlines_view};
use crate::utils::image_helper::image_dimensions;
use crate::utils::text::{chars_of, contains, decimal_string, find_from, owned, push_char, substring};
use crate::utils::xml_helper::escape_attr;

pub use crate::generators::hwpx::items::strings_view;

verus! {

broadcast use crate::models::block::group_view_lemmas;

/// An image embedded in the document package.
#[derive(Debug, Clone)]
pub struct ImageAsset {
    pub relationship_id: String,
    pub target: String,
    pub extension: String,
    pub mime_type: String,
    pub data: Vec<u8>,
}

pub struct ImageAssetV {
    pub relationship_id: Seq<char>,
    pub target: Seq<char>,
    pub extension: Seq<char>,
    pub mime_type: Seq<char>,
    pub data: Seq<u8>,
}

impl View for ImageAsset {
    type V = ImageAssetV;

    open spec fn view(&self) -> ImageAssetV {
        ImageAssetV {
            relationship_id: self.relationship_id@,
            target: self.target@,
            extension: self.extension@,
            mime_type: self.mime_type@,
            data: self.data@,
        }
    }
}

pub open spec fn assets_view(s: Seq<ImageAsset>) -> Seq<ImageAssetV> {
    s.map_values(|a: ImageAsset| a@)
}

/// What rendering collects: hyperlink targets and embedded images, in order.
pub struct RenderContext {
    pub hyperlinks: Vec<String>,
    pub images: Vec<ImageAsset>,
}

impl View for RenderContext {
    type V = CtxV;

    open spec fn view(&self) -> CtxV {
        CtxV { links: strings_view(self.hyperlinks@), images: assets_view(self.images@) }
    }
}

impl RenderContext {
    /// An empty context.
    pub fn new() -> (c: RenderContext)
        ensures
            c@ == (CtxV { links: seq![], images: seq![] }),
    {
        let c = RenderContext { hyperlinks: Vec::new(), images: Vec::new() };
        assert(c@ =~= CtxV { links: seq![], images: seq![] });
        c
    }
}

/// The exec outcome agrees with the stated one: the same markup and context, or
/// the same error.
pub open spec fn out_holds(r: Result<String, CoreRsError>, after: CtxV, o: Out) -> bool {
    match o {
        Ok((x, c)) => r matches Ok(s) && s@ == x && after == c,
        Err(e) => r matches Err(er) && er@ == e,
    }
}

pub open spec fn opt_str(o: Option<&str>) -> Option<Seq<char>> {
    match o {
        Some(p) => Some(p@),
        None => None,
    }
}

fn succ_sat_usize(n: usize) -> (r: usize)
    ensures
        r == succ_sat(n as nat),
{
    if n < usize::MAX { n + 1 } else { n }
}

fn add_sat_usize(a: usize, b: usize) -> (r: usize)
    ensures
        r == add_sat(a as nat, b as nat),
{
    if a <= usize::MAX - b { a + b } else { usize::MAX }
}

proof fn lemma_inlines_err(s: Seq<InlineV>, ctx: CtxV, style: RunStyle, k: int)
    requires
        0 <= k <= s.len(),
        spec_render_inlines(s.take(k), ctx, style) is Err,
    ensures
        spec_render_inlines(s, ctx, style) == spec_render_inlines(s.take(k), ctx, style),
    decreases s.len(),
{
    if s.len() == k {
        assert(s.take(k) == s);
    } else {
        assert(s.drop_last().take(k) == s.take(k));
        lemma_inlines_err(s.drop_last(), ctx, style, k);
    }
}

/// The runs of a sequence of inlines.
pub fn render_inlines(inlines: &Vec<Inline>, ctx: &mut RenderContext, style: RunStyle) -> (r: Result<String, CoreRsError>)
    ensures
        out_holds(r, final(ctx)@, spec_render_inlines(inlines_view(inlines@), old(ctx)@, style)),
    decreases inlines,
{
    let ghost v = inlines_view(inlines@);
    let ghost c0 = ctx@;
    let mut xml = String::new();
    let mut i: usize = 0;
    assert(v.take(0) =~= seq![]);
    while i < inlines.len()
        invariant
            i <= inlines.len(),
            v == inlines_view(inlines@),
            c0 == old(ctx)@,
            spec_render_inlines(v.take(i as int), c0, style) == Ok::<(Seq<char>, CtxV), ErrorV>((xml@, ctx@)),
        decreases inlines.len() - i,
    {
        assert(v.take(i + 1).drop_last() == v.take(i as int));
        assert(v.take(i + 1).last() == inlines@[i as int]@);
        proof {
            assert(decreases_to!(inlines => inlines@));
            assert(decreases_to!(inlines@ => inlines@[i as int]));
        }
        let ghost cb = ctx@;
        let ghost xb = xml@;
        match render_inline(&inlines[i], ctx, style) {
            Ok(part) => xml.append(part.as_str()),
            Err(e) => {
                assert(spec_render_inline(v[i as int], cb, style) == Err::<(Seq<char>, CtxV), ErrorV>(e@));
                assert(spec_render_inlines(v.take(i + 1), c0, style) == Err::<(Seq<char>, CtxV), ErrorV>(e@));
                proof { lemma_inlines_err(v, c0, style, i + 1); }
                assert(spec_render_inlines(v, c0, style) == Err::<(Seq<char>, CtxV), ErrorV>(e@));
                return Err(e);
            },
        }
        i += 1;
    }
    assert(v.take(v.len() as int) == v);
    Ok(xml)
}

fn render_inline(inline: &Inline, ctx: &mut RenderContext, style: RunStyle) -> (r: Result<String, CoreRsError>)
    ensures
        out_holds(r, final(ctx)@, spec_render_inline(inline@, old(ctx)@, style)),
    decreases inline,
{
    match inline {
        Inline::Text(text) => Ok(text_run(text.as_str(), style)),
        Inline::Code(code) => Ok(text_run(code.as_str(), RunStyle { code: true, ..style })),
        Inline::Emphasis(content) => render_inlines(content, ctx, RunStyle { italic: true, ..style }),
        Inline::Strong(content) => render_inlines(content, ctx, RunStyle { bold: true, ..style }),
        Inline::Link { text, url } => {
            let number = succ_sat_usize(ctx.hyperlinks.len());
            let mut relationship_id = owned("rLink");
            let digits = decimal_string(number as u64);
            relationship_id.append(digits.as_str());
            let ghost before = ctx@;
            ctx.hyperlinks.push(url.clone());
            assert(ctx@ =~= CtxV { links: before.links.push(url@), ..before });
            let content_xml = render_inlines(text, ctx, RunStyle { hyperlink: true, ..style })?;
            let rid = escape_attr(relationship_id.as_str());
            let mut s = owned("<w:hyperlink r:id=\"");
            s.append(rid.as_str());
            s.append("\" w:history=\"1\">");
            s.append(content_xml.as_str());
            s.append("</w:hyperlink>");
            Ok(s)
        },
        Inline::Image(image) => render_image(image, ctx),
        Inline::HardBreak => Ok(owned("<w:r><w:br/></w:r>")),
    }
}

/// An embedded image, added to the package.
fn render_image(image: &ImageData, ctx: &mut RenderContext) -> (r: Result<String, CoreRsError>)
    ensures
        out_holds(r, final(ctx)@, spec_render_image(image@, old(ctx)@)),
{
    let index = succ_sat_usize(ctx.images.len());
    let digits = decimal_string(index as u64);
    let mut relationship_id = owned("rImage");
    relationship_id.append(digits.as_str());
    let mut target = owned("word/media/image");
    target.append(digits.as_str());
    target.append(".");
    target.append(image.extension.as_str());
    let (width, height) = image_dimensions(image.mime_type.as_str(), &image.data)?;
    let ghost before = ctx@;
    let asset = ImageAsset {
        relationship_id: relationship_id.clone(),
        target,
        extension: image.extension.clone(),
        mime_type: image.mime_type.clone(),
        data: image.data.clone(),
    };
    ctx.images.push(asset);
    assert(ctx@ =~= CtxV { images: before.images.push(asset@), ..before });
    let cx: i64 = width as i64 * 9525;
    let cy: i64 = height as i64 * 9525;
    Ok(image_run(relationship_id.as_str(), image.alt.as_str(), index, index, cx, cy))
}

/// A paragraph of inlines.
fn render_text_paragraph(
    content: &Vec<Inline>,
    style_id: Option<&str>,
    indent: usize,
    extra: &str,
    ctx: &mut RenderContext,
    prefix: Option<&str>,
) -> (r: Result<String, CoreRsError>)
    ensures
        out_holds(r, final(ctx)@, spec_text_paragraph(inlines_view(content@), opt_str(style_id), indent as nat, extra@, old(ctx)@, opt_str(prefix))),
{
    let mut properties = String::new();
    if let Some(id) = style_id {
        properties.append("<w:pStyle w:val=\"");
        properties.append(id);
        properties.append("\"/>");
    }
    let ghost p1 = properties@;
    if indent > 0 {
        let digits = decimal_string(indent as u64);
        properties.append("<w:ind w:left=\"");
        properties.append(digits.as_str());
        properties.append("\"/>");
    }
    assert(properties@ =~= p1 + ind_left(indent as nat));
    properties.append(extra);
    let mut runs = String::new();
    if let Some(p) = prefix {
        let run = text_run(p, RunStyle::plain());
        runs.append(run.as_str());
    }
    assert(runs@ =~= prefix_run(opt_str(prefix)));
    let inline_xml = render_inlines(content, ctx, RunStyle::plain())?;
    runs.append(inline_xml.as_str());
    Ok(paragraph_with_properties(properties.as_str(), runs.as_str()))
}

proof fn lemma_find_shift(s: Seq<char>, i: int, j: int, c: char)
    requires
        0 <= i <= j,
        i <= s.len(),
    ensures
        match crate::utils::text::spec_find_from(s, j, c) {
            Some(k) => crate::utils::text::spec_find_from(s.skip(i), j - i, c) == Some(k - i),
            None => crate::utils::text::spec_find_from(s.skip(i), j - i, c) is None,
        },
    decreases s.len() - j,
{
    if j < s.len() {
        assert(s.skip(i)[j - i] == s[j]);
        if s[j] != c {
            lemma_find_shift(s, i, j + 1, c);
        }
    }
}

/// The lines of a text, as `str::lines` yields them.
pub fn lines_of(text: &str) -> (lines: Vec<String>)
    ensures
        strings_view(lines@) == spec_lines(text@),
{
    let cs = chars_of(text);
    let ghost t = text@;
    let mut lines: Vec<String> = Vec::new();
    let mut i: usize = 0;
    assert(t.skip(0) == t);
    assert(strings_view(lines@) =~= seq![]);
    while i < cs.len()
        invariant
            i <= cs.len(),
            cs@ == t,
            strings_view(lines@) + spec_lines(t.skip(i as int)) == spec_lines(t),
        decreases cs.len() - i,
    {
        let ghost rest = t.skip(i as int);
        proof {
            lemma_find_shift(t, i as int, i as int, '\n');
            crate::parser::markdown::data_image::lemma_find_from_range(t, i as int, '\n');
        }
        let ghost prev = strings_view(lines@);
        match find_from(&cs, i, '\n') {
            None => {
                let line = substring(&cs, i, cs.len());
                lines.push(line);
                assert(t.subrange(i as int, t.len() as int) == rest);
                assert(strings_view(lines@) =~= prev.push(rest));
                assert(spec_lines(rest) == seq![rest]);
                assert(t.skip(t.len() as int) =~= seq![]);
                assert(strings_view(lines@) + spec_lines(t.skip(t.len() as int)) =~= prev + seq![rest]);
                i = cs.len();
            },
            Some(j) => {
                let end = if j > i && cs[j - 1] == '\r' { j - 1 } else { j };
                let line = substring(&cs, i, end);
                lines.push(line);
                assert(rest.take(j - i) == t.subrange(i as int, j as int));
                assert(line@ == strip_cr(rest.take(j - i)));
                assert(rest.skip(j - i + 1) == t.skip(j + 1));
                assert(strings_view(lines@) =~= prev.push(line@));
                assert(spec_lines(rest) == seq![line@] + spec_lines(t.skip(j + 1)));
                assert(strings_view(lines@) + spec_lines(t.skip(j + 1)) =~= prev + (seq![line@] + spec_lines(t.skip(j + 1))));
                i = j + 1;
            },
        }
    }
    assert(t.skip(i as int) =~= seq![]);
    assert(strings_view(lines@) + seq![] =~= strings_view(lines@));
    lines
}

/// A code block: one shaded paragraph with a break between lines.
fn render_code_block(code: &str, indent: usize, prefix: Option<&str>, extra: &str) -> (s: String)
    ensures
        s@ == spec_code_block(code@, indent as nat, opt_str(prefix), extra@),
{
    let mut content = String::new();
    if let Some(p) = prefix {
        let run = text_run(p, RunStyle::plain());
        content.append(run.as_str());
    }
    assert(content@ =~= prefix_run(opt_str(prefix)));
    let ghost head = content@;
    let lines = lines_of(code);
    let ghost ls = strings_view(lines@);
    let mut k: usize = 0;
    while k < lines.len()
        invariant
            k <= lines.len(),
            ls == strings_view(lines@),
            content@ == head + spec_code_lines(ls.take(k as int), prefix is Some),
        decreases lines.len() - k,
    {
        assert(ls.take(k + 1).drop_last() == ls.take(k as int));
        assert(ls.take(k + 1).last() == lines@[k as int]@);
        let ghost before = content@;
        if k > 0 || prefix.is_some() {
            content.append("<w:r><w:br/></w:r>");
        }
        let run = text_run(lines[k].as_str(), RunStyle { code: true, ..RunStyle::plain() });
        content.append(run.as_str());
        assert(content@ =~= head + spec_code_lines(ls.take(k + 1), prefix is Some));
        k += 1;
    }
    assert(ls.take(ls.len() as int) == ls);
    let digits = decimal_string(add_sat_usize(indent, 360) as u64);
    let mut properties = owned("<w:ind w:left=\"");
    properties.append(digits.as_str());
    properties.append("\"/>");
    properties.append(extra);
    properties.append("<w:shd w:val=\"clear\" w:color=\"auto\" w:fill=\"F4F4F4\"/><w:spacing w:before=\"120\" w:after=\"120\"/>");
    paragraph_with_properties(properties.as_str(), content.as_str())
}

/// Whether paragraph properties carry the block quote border.
fn has_quote_border(properties: &str) -> (b: bool)
    ensures
        b == spec_has_quote_border(properties@),
{
    contains(properties, "<w:left w:val=\"single\" w:sz=\"8\" w:space=\"8\" w:color=\"B7B7B7\"/>")
}

/// Paragraph properties of nested content: the quote border is not repeated.
fn join_properties(first: &str, second: &str) -> (s: String)
    ensures
        s@ == spec_join_properties(first@, second@),
{
    if has_quote_border(first) && has_quote_border(second) {
        owned(first)
    } else {
        let mut s = owned(first);
        s.append(second);
        s
    }
}

fn indent_left(indent: usize) -> (s: String)
    ensures
        s@ == ind_left(indent as nat),
{
    if indent > 0 {
        let digits = decimal_string(indent as u64);
        let mut s = owned("<w:ind w:left=\"");
        s.append(digits.as_str());
        s.append("\"/>");
        s
    } else {
        String::new()
    }
}

fn indent_hanging(indent: usize) -> (s: String)
    ensures
        s@ == ind_hanging(indent as nat),
{
    let digits = decimal_string(indent as u64);
    let mut s = owned("<w:ind w:left=\"");
    s.append(digits.as_str());
    s.append("\" w:hanging=\"360\"/>");
    s
}

/// The paragraph properties of a thematic break.
fn thematic_break_properties(indent: usize, extra: &str) -> (s: String)
    ensures
        s@ == spec_thematic_break_properties(indent as nat, extra@),
{
    let mut s = indent_left(indent);
    if has_quote_border(extra) {
        s.append("<w:pBdr><w:left w:val=\"single\" w:sz=\"8\" w:space=\"8\" w:color=\"B7B7B7\"/><w:bottom w:val=\"single\" w:sz=\"6\" w:space=\"1\" w:color=\"auto\"/></w:pBdr>");
    } else {
        s.append(extra);
        s.append("<w:pBdr><w:bottom w:val=\"single\" w:sz=\"6\" w:space=\"1\" w:color=\"auto\"/></w:pBdr>");
    }
    s
}

/// A paragraph that holds only a list marker.
fn render_list_marker_paragraph(prefix: &str, indent: usize, extra: &str) -> (s: String)
    ensures
        s@ == spec_marker_paragraph(prefix@, indent as nat, extra@),
{
    let mut properties = if indent > 0 { indent_hanging(indent) } else { String::new() };
    properties.append(extra);
    let mut marker = owned(prefix);
    push_char(&mut marker, '\u{200B}');
    assert(marker@ =~= prefix@ + seq!['\u{200B}']);
    let runs = text_run(marker.as_str(), RunStyle::plain());
    paragraph_with_properties(properties.as_str(), runs.as_str())
}

/// The marker of the list item at `index`.
fn list_prefix(list: &ListBlock, indent: usize, index: usize) -> (s: String)
    ensures
        s@ == spec_list_prefix(crate::models::block::list_view(*list), indent as nat, index as nat),
{
    if list.ordered {
        let n = list.start_index.saturating_add(index as u64);
        let mut s = decimal_string(n);
        s.append(". ");
        s
    } else if indent == 0 {
        owned("\u{2022} ")
    } else {
        owned("\u{25E6} ")
    }
}

proof fn lemma_cells_err(cells: Seq<Seq<InlineV>>, aligns: Seq<TableAlignment>, header: bool, ctx: CtxV, k: int)
    requires
        0 <= k <= cells.len(),
        spec_row_cells(cells.take(k), aligns, header, ctx) is Err,
    ensures
        spec_row_cells(cells, aligns, header, ctx) == spec_row_cells(cells.take(k), aligns, header, ctx),
    decreases cells.len(),
{
    if cells.len() == k {
        assert(cells.take(k) == cells);
    } else {
        assert(cells.drop_last().take(k) == cells.take(k));
        lemma_cells_err(cells.drop_last(), aligns, header, ctx, k);
    }
}

proof fn lemma_rows_err(rows: Seq<Seq<Seq<InlineV>>>, aligns: Seq<TableAlignment>, ctx: CtxV, k: int)
    requires
        0 <= k <= rows.len(),
        spec_table_rows(rows.take(k), aligns, ctx) is Err,
    ensures
        spec_table_rows(rows, aligns, ctx) == spec_table_rows(rows.take(k), aligns, ctx),
    decreases rows.len(),
{
    if rows.len() == k {
        assert(rows.take(k) == rows);
    } else {
        assert(rows.drop_last().take(k) == rows.take(k));
        lemma_rows_err(rows.drop_last(), aligns, ctx, k);
    }
}

proof fn lemma_quote_err(blocks: Seq<crate::models::block::BlockV>, ctx: CtxV, indent: nat, prefix: Option<Seq<char>>, props: Seq<char>, k: int)
    requires
        0 <= k <= blocks.len(),
        spec_render_quote(blocks.take(k), ctx, indent, prefix, props) is Err,
    ensures
        spec_render_quote(blocks, ctx, indent, prefix, props) == spec_render_quote(blocks.take(k), ctx, indent, prefix, props),
    decreases blocks.len(),
{
    if blocks.len() == k {
        assert(blocks.take(k) == blocks);
    } else {
        assert(blocks.drop_last().take(k) == blocks.take(k));
        lemma_quote_err(blocks.drop_last(), ctx, indent, prefix, props, k);
    }
}

proof fn lemma_items_err(l: crate::models::block::ListBlockV, items: Seq<Seq<crate::models::block::BlockV>>, ctx: CtxV, indent: nat, first_prefix: Option<Seq<char>>, extra: Seq<char>, k: int)
    requires
        0 <= k <= items.len(),
        spec_render_items(l, items.take(k), ctx, indent, first_prefix, extra) is Err,
    ensures
        spec_render_items(l, items, ctx, indent, first_prefix, extra) == spec_render_items(l, items.take(k), ctx, indent, first_prefix, extra),
    decreases items.len(),
{
    if items.len() == k {
        assert(items.take(k) == items);
    } else {
        assert(items.drop_last().take(k) == items.take(k));
        lemma_items_err(l, items.drop_last(), ctx, indent, first_prefix, extra, k);
    }
}

proof fn lemma_item_err(blocks: Seq<crate::models::block::BlockV>, prefix: Seq<char>, ctx: CtxV, indent: nat, extra: Seq<char>, k: int)
    requires
        0 <= k <= blocks.len(),
        spec_render_item(blocks.take(k), prefix, ctx, indent, extra) is Err,
    ensures
        spec_render_item(blocks, prefix, ctx, indent, extra) == spec_render_item(blocks.take(k), prefix, ctx, indent, extra),
    decreases blocks.len(),
{
    if blocks.len() == k {
        assert(blocks.take(k) == blocks);
    } else {
        assert(blocks.drop_last().take(k) == blocks.take(k));
        lemma_item_err(blocks.drop_last(), prefix, ctx, indent, extra, k);
    }
}

proof fn lemma_blocks_err(blocks: Seq<crate::models::block::BlockV>, ctx: CtxV, k: int)
    requires
        0 <= k <= blocks.len(),
        spec_render_blocks(blocks.take(k), ctx) is Err,
    ensures
        spec_render_blocks(blocks, ctx) == spec_render_blocks(blocks.take(k), ctx),
    decreases blocks.len(),
{
    if blocks.len() == k {
        assert(blocks.take(k) == blocks);
    } else {
        assert(blocks.drop_last().take(k) == blocks.take(k));
        lemma_blocks_err(blocks.drop_last(), ctx, k);
    }
}

type R = Result<(Seq<char>, CtxV), ErrorV>;

/// The paragraph properties of a column's alignment.
fn alignment_properties(a: TableAlignment) -> (s: String)
    ensures
        s@ == align_properties(a),
{
    match a {
        TableAlignment::Unaligned => String::new(),
        TableAlignment::Left => owned("<w:jc w:val=\"left\"/>"),
        TableAlignment::Center => owned("<w:jc w:val=\"center\"/>"),
        TableAlignment::Right => owned("<w:jc w:val=\"right\"/>"),
    }
}

/// A table row; header cells are bold and shaded.
fn render_table_row(cells: &Vec<Vec<Inline>>, aligns: &Vec<TableAlignment>, header: bool, ctx: &mut RenderContext) -> (r: Result<String, CoreRsError>)
    ensures
        out_holds(r, final(ctx)@, spec_table_row(cells_view(cells@), aligns@, header, old(ctx)@)),
{
    let ghost v = cells_view(cells@);
    let ghost c0 = ctx@;
    let mut xml = String::new();
    let mut i: usize = 0;
    while i < cells.len()
        invariant
            i <= cells.len(),
            v == cells_view(cells@),
            c0 == old(ctx)@,
            spec_row_cells(v.take(i as int), aligns@, header, c0) == Ok::<(Seq<char>, CtxV), ErrorV>((xml@, ctx@)),
        decreases cells.len() - i,
    {
        assert(v.take(i + 1).drop_last() == v.take(i as int));
        assert(v.take(i + 1).last() == inlines_view(cells@[i as int]@));
        let alignment = if i < aligns.len() { aligns[i] } else { TableAlignment::Unaligned };
        let paragraph_props = alignment_properties(alignment);
        let ghost cb = ctx@;
        let runs = match render_inlines(&cells[i], ctx, RunStyle { bold: header, ..RunStyle::plain() }) {
            Ok(runs) => runs,
            Err(e) => {
                assert(spec_row_cells(v.take(i + 1), aligns@, header, c0) == Err::<(Seq<char>, CtxV), ErrorV>(e@));
                proof { lemma_cells_err(v, aligns@, header, c0, i + 1); }
                return Err(e);
            },
        };
        let paragraph = paragraph_with_properties(paragraph_props.as_str(), runs.as_str());
        xml.append("<w:tc><w:tcPr>");
        if header {
            xml.append("<w:shd w:val=\"clear\" w:color=\"auto\" w:fill=\"EFEFEF\"/>");
        }
        xml.append("</w:tcPr>");
        xml.append(paragraph.as_str());
        xml.append("</w:tc>");
        assert(column_alignment(aligns@, i as int) == alignment);
        assert(xml@ =~= spec_row_cells(v.take(i + 1), aligns@, header, c0)->Ok_0.0);
        i += 1;
    }
    assert(v.take(v.len() as int) == v);
    let mut row = owned("<w:tr>");
    row.append(xml.as_str());
    row.append("</w:tr>");
    Ok(row)
}

/// A table, after a marker paragraph when it carries a list marker.
fn render_table(table: &TableBlock, ctx: &mut RenderContext, indent: usize, prefix: Option<&str>, extra: &str) -> (r: Result<String, CoreRsError>)
    ensures
        out_holds(r, final(ctx)@, spec_render_table(crate::models::block::table_view(*table), old(ctx)@, indent as nat, opt_str(prefix), extra@)),
{
    let ghost tv = crate::models::block::table_view(*table);
    let mut xml = String::new();
    if let Some(p) = prefix {
        let marker = render_list_marker_paragraph(p, indent, extra);
        xml.append(marker.as_str());
    }
    let header_row = render_table_row(&table.headers, &table.aligns, true, ctx)?;
    let ghost c1 = ctx@;
    let ghost rv = rows_view(table.rows@);
    let mut rows_xml = String::new();
    let mut i: usize = 0;
    while i < table.rows.len()
        invariant
            i <= table.rows.len(),
            rv == rows_view(table.rows@),
            spec_table_row(cells_view(table.headers@), table.aligns@, true, old(ctx)@) == Ok::<(Seq<char>, CtxV), ErrorV>((header_row@, c1)),
            tv == crate::models::block::table_view(*table),
            spec_table_rows(rv.take(i as int), table.aligns@, c1) == Ok::<(Seq<char>, CtxV), ErrorV>((rows_xml@, ctx@)),
        decreases table.rows.len() - i,
    {
        assert(rv.take(i + 1).drop_last() == rv.take(i as int));
        assert(rv.take(i + 1).last() == cells_view(table.rows@[i as int].cells@));
        match render_table_row(&table.rows[i].cells, &table.aligns, false, ctx) {
            Ok(row) => rows_xml.append(row.as_str()),
            Err(e) => {
                assert(spec_table_rows(rv.take(i + 1), table.aligns@, c1) == Err::<(Seq<char>, CtxV), ErrorV>(e@));
                proof { lemma_rows_err(rv, table.aligns@, c1, i + 1); }
                assert(rv.take(rv.len() as int) == rv);
                return Err(e);
            },
        }
        i += 1;
    }
    assert(rv.take(rv.len() as int) == rv);
    let columns = if table.aligns.len() >= table.headers.len() { table.aligns.len() } else { table.headers.len() };
    let mut grid = String::new();
    let mut g: usize = 0;
    while g < columns
        invariant
            g <= columns,
            grid@ == spec_repeat("<w:gridCol w:w=\"2400\"/>"@, g as nat),
        decreases columns - g,
    {
        grid.append("<w:gridCol w:w=\"2400\"/>");
        g += 1;
    }
    let mut properties = owned("<w:tblW w:w=\"0\" w:type=\"auto\"/><w:tblBorders><w:top w:val=\"single\" w:sz=\"4\" w:space=\"0\" w:color=\"A0A0A0\"/>");
    if has_quote_border(extra) {
        properties.append("<w:left w:val=\"single\" w:sz=\"8\" w:space=\"8\" w:color=\"B7B7B7\"/>");
    } else {
        properties.append("<w:left w:val=\"single\" w:sz=\"4\" w:space=\"0\" w:color=\"A0A0A0\"/>");
    }
    properties.append("<w:bottom w:val=\"single\" w:sz=\"4\" w:space=\"0\" w:color=\"A0A0A0\"/><w:right w:val=\"single\" w:sz=\"4\" w:space=\"0\" w:color=\"A0A0A0\"/><w:insideH w:val=\"single\" w:sz=\"4\" w:space=\"0\" w:color=\"D0D0D0\"/><w:insideV w:val=\"single\" w:sz=\"4\" w:space=\"0\" w:color=\"D0D0D0\"/></w:tblBorders>");
    let ghost p1 = properties@;
    if indent > 0 {
        let digits = decimal_string(indent as u64);
        properties.append("<w:tblInd w:w=\"");
        properties.append(digits.as_str());
        properties.append("\" w:type=\"dxa\"/>");
    }
    assert(properties@ =~= spec_table_properties(indent as nat, extra@));
    xml.append("<w:tbl><w:tblPr>");
    xml.append(properties.as_str());
    xml.append("</w:tblPr><w:tblGrid>");
    xml.append(grid.as_str());
    xml.append("</w:tblGrid>");
    xml.append(header_row.as_str());
    xml.append(rows_xml.as_str());
    xml.append("</w:tbl>");
    assert(xml@ =~= spec_render_table(tv, old(ctx)@, indent as nat, opt_str(prefix), extra@)->Ok_0.0);
    Ok(xml)
}

fn heading_style_id(level: u8) -> (s: String)
    ensures
        s@ == heading_style(level),
{
    let mut s = owned("Heading");
    let digits = decimal_string(level as u64);
    s.append(digits.as_str());
    s
}

/// A block at an indent, with an optional prefix run and extra paragraph properties.
fn render_block(block: &Block, ctx: &mut RenderContext, indent: usize, prefix: Option<&str>, extra: &str) -> (r: Result<String, CoreRsError>)
    ensures
        out_holds(r, final(ctx)@, spec_render_block(block@, old(ctx)@, indent as nat, opt_str(prefix), extra@)),
    decreases block, 0int,
{
    match block {
        Block::Paragraph(content) => render_text_paragraph(content, None, indent, extra, ctx, prefix),
        Block::Heading { level, content } => {
            let style = heading_style_id(*level);
            render_text_paragraph(content, Some(style.as_str()), indent, extra, ctx, prefix)
        },
        Block::BlockQuote(blocks) => {
            let quote_indent = add_sat_usize(indent, 720);
            let props = join_properties(
                extra,
                "<w:pBdr><w:left w:val=\"single\" w:sz=\"8\" w:space=\"8\" w:color=\"B7B7B7\"/></w:pBdr>",
            );
            render_block_quote(blocks, ctx, quote_indent, prefix, props.as_str())
        },
        Block::CodeBlock { code, .. } => Ok(render_code_block(code.as_str(), indent, prefix, extra)),
        Block::List(list) => render_list(list, ctx, indent, prefix, extra),
        Block::Table(table) => render_table(table, ctx, indent, prefix, extra),
        Block::ThematicBreak => {
            let mut content = String::new();
            if let Some(p) = prefix {
                let run = text_run(p, RunStyle::plain());
                content.append(run.as_str());
            }
            assert(content@ =~= prefix_run(opt_str(prefix)));
            let properties = thematic_break_properties(indent, extra);
            Ok(paragraph_with_properties(properties.as_str(), content.as_str()))
        },
    }
}

/// The blocks of a quote; the prefix goes to the first block.
fn render_block_quote(blocks: &Vec<Block>, ctx: &mut RenderContext, indent: usize, prefix: Option<&str>, props: &str) -> (r: Result<String, CoreRsError>)
    ensures
        out_holds(r, final(ctx)@, spec_render_quote(blocks_view(blocks@), old(ctx)@, indent as nat, opt_str(prefix), props@)),
    decreases blocks, 0int,
{
    let ghost v = blocks_view(blocks@);
    let ghost c0 = ctx@;
    let mut xml = String::new();
    let mut i: usize = 0;
    while i < blocks.len()
        invariant
            i <= blocks.len(),
            v == blocks_view(blocks@),
            c0 == old(ctx)@,
            spec_render_quote(v.take(i as int), c0, indent as nat, opt_str(prefix), props@) == Ok::<(Seq<char>, CtxV), ErrorV>((xml@, ctx@)),
        decreases blocks.len() - i,
    {
        assert(v.take(i + 1).drop_last() == v.take(i as int));
        assert(v.take(i + 1).last() == blocks@[i as int]@);
        proof {
            assert(decreases_to!(blocks => blocks@));
            assert(decreases_to!(blocks@ => blocks@[i as int]));
        }
        let p = if i == 0 { prefix } else { None };
        match render_block(&blocks[i], ctx, indent, p, props) {
            Ok(part) => xml.append(part.as_str()),
            Err(e) => {
                assert(spec_render_quote(v.take(i + 1), c0, indent as nat, opt_str(prefix), props@) == Err::<(Seq<char>, CtxV), ErrorV>(e@));
                proof { lemma_quote_err(v, c0, indent as nat, opt_str(prefix), props@, i + 1); }
                return Err(e);
            },
        }
        i += 1;
    }
    assert(v.take(v.len() as int) == v);
    Ok(xml)
}

/// The items of a list; the first item may take its marker from the caller.
fn render_list(list: &ListBlock, ctx: &mut RenderContext, indent: usize, first_prefix: Option<&str>, extra: &str) -> (r: Result<String, CoreRsError>)
    ensures
        out_holds(r, final(ctx)@, spec_render_items(crate::models::block::list_view(*list), crate::models::block::items_view(list.items@), old(ctx)@, indent as nat, opt_str(first_prefix), extra@)),
    decreases list, 0int,
{
    let ghost lv = crate::models::block::list_view(*list);
    let ghost v = crate::models::block::items_view(list.items@);
    let ghost c0 = ctx@;
    let item_indent = add_sat_usize(indent, 720);
    let mut xml = String::new();
    let mut k: usize = 0;
    while k < list.items.len()
        invariant
            k <= list.items.len(),
            v == crate::models::block::items_view(list.items@),
            lv == crate::models::block::list_view(*list),
            c0 == old(ctx)@,
            item_indent == add_sat(indent as nat, 720),
            spec_render_items(lv, v.take(k as int), c0, indent as nat, opt_str(first_prefix), extra@) == Ok::<(Seq<char>, CtxV), ErrorV>((xml@, ctx@)),
        decreases list.items.len() - k,
    {
        assert(v.take(k + 1).drop_last() == v.take(k as int));
        assert(v.take(k + 1).last() == blocks_view(list.items@[k as int].blocks@));
        proof {
            assert(decreases_to!(list => list.items));
            assert(decreases_to!(list.items => list.items@));
            assert(decreases_to!(list.items@ => list.items@[k as int]));
        }
        let prefix = if k == 0 {
            match first_prefix {
                Some(p) => owned(p),
                None => list_prefix(list, indent, 0),
            }
        } else {
            list_prefix(list, indent, k)
        };
        match render_list_item(&list.items[k], prefix.as_str(), ctx, item_indent, extra) {
            Ok(part) => xml.append(part.as_str()),
            Err(e) => {
                assert(spec_render_items(lv, v.take(k + 1), c0, indent as nat, opt_str(first_prefix), extra@) == Err::<(Seq<char>, CtxV), ErrorV>(e@));
                proof { lemma_items_err(lv, v, c0, indent as nat, opt_str(first_prefix), extra@, k + 1); }
                return Err(e);
            },
        }
        k += 1;
    }
    assert(v.take(v.len() as int) == v);
    Ok(xml)
}

/// The blocks of a list item; its first block carries the marker.
fn render_list_item(item: &ListItem, prefix: &str, ctx: &mut RenderContext, indent: usize, extra: &str) -> (r: Result<String, CoreRsError>)
    ensures
        out_holds(r, final(ctx)@, spec_render_item(blocks_view(item.blocks@), prefix@, old(ctx)@, indent as nat, extra@)),
    decreases item, 0int,
{
    let ghost v = blocks_view(item.blocks@);
    let ghost c0 = ctx@;
    let mut xml = String::new();
    let mut j: usize = 0;
    while j < item.blocks.len()
        invariant
            j <= item.blocks.len(),
            v == blocks_view(item.blocks@),
            c0 == old(ctx)@,
            spec_render_item(v.take(j as int), prefix@, c0, indent as nat, extra@) == Ok::<(Seq<char>, CtxV), ErrorV>((xml@, ctx@)),
        decreases item.blocks.len() - j,
    {
        assert(v.take(j + 1).drop_last() == v.take(j as int));
        assert(v.take(j + 1).last() == item.blocks@[j as int]@);
        proof {
            assert(decreases_to!(item => item.blocks));
            assert(decreases_to!(item.blocks => item.blocks@));
            assert(decreases_to!(item.blocks@ => item.blocks@[j as int]));
        }
        let part = if j == 0 {
            render_item_first(&item.blocks[0], prefix, ctx, indent, extra)
        } else {
            render_block(&item.blocks[j], ctx, indent, None, extra)
        };
        match part {
            Ok(part) => xml.append(part.as_str()),
            Err(e) => {
                assert(spec_render_item(v.take(j + 1), prefix@, c0, indent as nat, extra@) == Err::<(Seq<char>, CtxV), ErrorV>(e@));
                proof { lemma_item_err(v, prefix@, c0, indent as nat, extra@, j + 1); }
                return Err(e);
            },
        }
        j += 1;
    }
    assert(v.take(v.len() as int) == v);
    Ok(xml)
}

/// The first block of a list item.
fn render_item_first(block: &Block, prefix: &str, ctx: &mut RenderContext, indent: usize, extra: &str) -> (r: Result<String, CoreRsError>)
    ensures
        out_holds(r, final(ctx)@, spec_render_item_first(block@, prefix@, old(ctx)@, indent as nat, extra@)),
    decreases block, 1int,
{
    match block {
        Block::Paragraph(content) => {
            let mut props = indent_hanging(indent);
            props.append(extra);
            render_text_paragraph(content, None, 0, props.as_str(), ctx, Some(prefix))
        },
        Block::Heading { level, content } => {
            let style = heading_style_id(*level);
            let hanging = indent_hanging(indent);
            let mut props = owned("<w:pStyle w:val=\"");
            props.append(style.as_str());
            props.append("\"/>");
            props.append(hanging.as_str());
            props.append(extra);
            render_text_paragraph(content, None, 0, props.as_str(), ctx, Some(prefix))
        },
        Block::List(list) => {
            let mut xml = render_list_marker_paragraph(prefix, indent, extra);
            let inner = render_list(list, ctx, indent, None, extra)?;
            xml.append(inner.as_str());
            Ok(xml)
        },
        _ => render_block(block, ctx, indent, Some(prefix), extra),
    }
}

/// The body of the document.
pub fn render_blocks(blocks: &Vec<Block>, ctx: &mut RenderContext) -> (r: Result<String, CoreRsError>)
    ensures
        out_holds(r, final(ctx)@, spec_render_blocks(blocks_view(blocks@), old(ctx)@)),
{
    let ghost v = blocks_view(blocks@);
    let ghost c0 = ctx@;
    let mut xml = String::new();
    let mut i: usize = 0;
    while i < blocks.len()
        invariant
            i <= blocks.len(),
            v == blocks_view(blocks@),
            c0 == old(ctx)@,
            spec_render_blocks(v.take(i as int), c0) == Ok::<(Seq<char>, CtxV), ErrorV>((xml@, ctx@)),
        decreases blocks.len() - i,
    {
        assert(v.take(i + 1).drop_last() == v.take(i as int));
        assert(v.take(i + 1).last() == blocks@[i as int]@);
        let no_properties = String::new();
        match render_block(&blocks[i], ctx, 0, None, no_properties.as_str()) {
            Ok(part) => xml.append(part.as_str()),
            Err(e) => {
                assert(spec_render_blocks(v.take(i + 1), c0) == Err::<(Seq<char>, CtxV), ErrorV>(e@));
                proof { lemma_blocks_err(v, c0, i + 1); }
                return Err(e);
            },
        }
        i += 1;
    }
    assert(v.take(v.len() as int) == v);
    Ok(xml)
}

/// The deepest heading level in blocks, quotes and list items.
pub fn max_heading_level(blocks: &Vec<Block>) -> (m: u8)
    ensures
        m == spec_max_heading(blocks_view(blocks@)),
    decreases blocks,
{
    let ghost v = blocks_view(blocks@);
    let mut max_level: u8 = 0;
    let mut i: usize = 0;
    while i < blocks.len()
        invariant
            i <= blocks.len(),
            v == blocks_view(blocks@),
            max_level == spec_max_heading(v.take(i as int)),
        decreases blocks.len() - i,
    {
        assert(v.take(i + 1).drop_last() == v.take(i as int));
        assert(v.take(i + 1).last() == blocks@[i as int]@);
        proof {
            assert(decreases_to!(blocks => blocks@));
            assert(decreases_to!(blocks@ => blocks@[i as int]));
        }
        let level = max_heading_level_one(&blocks[i]);
        max_level = if max_level >= level { max_level } else { level };
        i += 1;
    }
    assert(v.take(v.len() as int) == v);
    max_level
}

fn max_heading_level_one(block: &Block) -> (m: u8)
    ensures
        m == spec_max_heading_one(block@),
    decreases block,
{
    match block {
        Block::Heading { level, .. } => *level,
        Block::BlockQuote(children) => max_heading_level(children),
        Block::List(list) => {
            let ghost v = crate::models::block::items_view(list.items@);
            let mut max_level: u8 = 0;
            let mut k: usize = 0;
            while k < list.items.len()
                invariant
                    k <= list.items.len(),
                    *block == Block::List(*list),
                    v == crate::models::block::items_view(list.items@),
                    max_level == spec_max_heading_items(v.take(k as int)),
                decreases list.items.len() - k,
            {
                assert(v.take(k + 1).drop_last() == v.take(k as int));
                assert(v.take(k + 1).last() == blocks_view(list.items@[k as int].blocks@));
                proof {
                    assert(decreases_to!(*block => block->List_0));
                    assert(decreases_to!(list => list.items));
                    assert(decreases_to!(list.items => list.items@));
                    assert(decreases_to!(list.items@ => list.items@[k as int]));
                    assert(decreases_to!(list.items@[k as int] => list.items@[k as int].blocks));
                }
                let level = max_heading_level(&list.items[k].blocks);
                max_level = if max_level >= level { max_level } else { level };
                k += 1;
            }
            assert(v.take(v.len() as int) == v);
            max_level
        },
        _ => 0,
    }
}

} // verus!
