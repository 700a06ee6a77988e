//! The paragraphs and tables of an HWPX section, collected from the document.
use vstd::prelude::*;
use crate::error::{CoreRsError, ErrorKind, ErrorV, err};
use crate::generators::docx::markup::spec_lines;
use crate::generators::docx::render::lines_of;
use crate::generators::hwpx::runs::{
    BOLD_CHAR_PR, H1_CHAR_PR, H2_CHAR_PR, H3_CHAR_PR, H4_CHAR_PR, NORMAL_CHAR_PR, RunSpec, RunV,
    flatten_inline_children, lemma_flatten_lenient, render_runs, runs_view, spec_flatten,
    spec_flatten_lenient, spec_render_runs,
};
use crate::models::block::{Block, BlockV, ListBlock, ListBlockV, TableBlock, TableBlockV, blocks_view, cells_view, items_view, list_view, rows_view, table_view};
use crate::models::inline::{Inline, InlineV, inlines_view};
use crate::utils::text::{decimal, decimal_string, owned, push_char};
use crate::utils::xml_helper::{escape_text, spec_escape_text};

verus! {

broadcast use crate::models::block::group_view_lemmas;

pub const LIST_LEVEL1_PARA_PR: u32 = 19;
pub const LIST_LEVEL2_PARA_PR: u32 = 20;
pub const TABLE_ID_SEED: u64 = 2104760845;
pub const TABLE_WIDTH: u32 = 41954;

/// The line layout of a paragraph.
#[derive(Debug, Clone, Copy, PartialEq, Eq, Structural)]
pub enum LineSegProfile {
    Standard,
    ListLevel1,
    ListLevel2,
}

/// What kind of list a paragraph belongs to.
#[derive(Debug, Clone, Copy, PartialEq, Eq, Structural)]
pub enum ListSemantic {
    NotListed,
    Unordered,
    OrderedSingleLevel,
    OrderedTopLevel,
    OrderedNestedLevel,
}

/// How deep the document's ordered lists nest.
#[derive(Debug, Clone, Copy, PartialEq, Eq, Structural)]
pub enum OrderedListShape {
    SingleLevel,
    NestedDepth2,
}

/// The paragraph and character properties of a paragraph.
#[derive(Debug, Clone, Copy, PartialEq, Eq, Structural)]
pub struct ParagraphStyle {
    pub para_pr: u32,
    pub style: u32,
    pub default_char_pr: u32,
    pub line_seg: LineSegProfile,
    pub list_semantic: ListSemantic,
}

/// A table: its id, its rows of cell texts (all of the same length) and its column
/// widths.
#[derive(Debug)]
pub struct TableSpec {
    pub(crate) id: u64,
    pub(crate) rows: Vec<Vec<String>>,
    pub(crate) col_widths: Vec<u32>,
}

impl TableSpec {
    /// Every row has one cell per column.
    #[verifier::type_invariant]
    pub(crate) closed spec fn rows_fit_columns(self) -> bool {
        forall|r: int| 0 <= r < self.rows@.len() ==> #[trigger] self.rows@[r]@.len() == self.col_widths@.len()
    }
}

/// A paragraph of runs, or a table.
#[derive(Debug)]
pub enum SectionItem {
    Paragraph(ParagraphStyle, Vec<RunSpec>),
    Table(TableSpec),
}

pub struct TableV {
    pub id: u64,
    pub rows: Seq<Seq<Seq<char>>>,
    pub widths: Seq<u32>,
}

pub enum SectionItemV {
    Paragraph(ParagraphStyle, Seq<RunV>),
    Table(TableV),
}

pub open spec fn strings_view(s: Seq<String>) -> Seq<Seq<char>> {
    s.map_values(|t: String| t@)
}

pub open spec fn string_rows_view(rows: Seq<Vec<String>>) -> Seq<Seq<Seq<char>>> {
    Seq::new(rows.len(), |k: int| strings_view(rows[k]@))
}

impl View for TableSpec {
    type V = TableV;

    closed spec fn view(&self) -> TableV {
        TableV { id: self.id, rows: string_rows_view(self.rows@), widths: self.col_widths@ }
    }
}

impl View for SectionItem {
    type V = SectionItemV;

    open spec fn view(&self) -> SectionItemV {
        match self {
            SectionItem::Paragraph(s, runs) => SectionItemV::Paragraph(*s, runs_view(runs@)),
            SectionItem::Table(t) => SectionItemV::Table(t@),
        }
    }
}

pub open spec fn items_seq_view(s: Seq<SectionItem>) -> Seq<SectionItemV> {
    s.map_values(|i: SectionItem| i@)
}

pub open spec fn spec_normal_style() -> ParagraphStyle {
    ParagraphStyle {
        para_pr: 0,
        style: 0,
        default_char_pr: NORMAL_CHAR_PR,
        line_seg: LineSegProfile::Standard,
        list_semantic: ListSemantic::NotListed,
    }
}

pub open spec fn spec_unordered_list_style(depth: nat) -> ParagraphStyle {
    ParagraphStyle {
        para_pr: if depth == 1 { LIST_LEVEL1_PARA_PR } else { LIST_LEVEL2_PARA_PR },
        style: 0,
        default_char_pr: NORMAL_CHAR_PR,
        line_seg: if depth == 1 { LineSegProfile::ListLevel1 } else { LineSegProfile::ListLevel2 },
        list_semantic: ListSemantic::Unordered,
    }
}

pub open spec fn spec_ordered_list_style(shape: OrderedListShape, depth: nat) -> ParagraphStyle {
    match shape {
        OrderedListShape::SingleLevel => ParagraphStyle {
            para_pr: LIST_LEVEL1_PARA_PR,
            style: 0,
            default_char_pr: NORMAL_CHAR_PR,
            line_seg: LineSegProfile::ListLevel1,
            list_semantic: ListSemantic::OrderedSingleLevel,
        },
        OrderedListShape::NestedDepth2 => if depth == 1 {
            ParagraphStyle {
                para_pr: LIST_LEVEL2_PARA_PR,
                style: 0,
                default_char_pr: NORMAL_CHAR_PR,
                line_seg: LineSegProfile::ListLevel1,
                list_semantic: ListSemantic::OrderedTopLevel,
            }
        } else {
            ParagraphStyle {
                para_pr: LIST_LEVEL1_PARA_PR,
                style: 0,
                default_char_pr: NORMAL_CHAR_PR,
                line_seg: LineSegProfile::ListLevel2,
                list_semantic: ListSemantic::OrderedNestedLevel,
            }
        },
    }
}

/// The style of a heading level: levels one to four have their own, five and six
/// are bold.
pub open spec fn spec_heading_style(level: u8) -> ParagraphStyle {
    let (p, c) = if level == 1 {
        (2u32, H1_CHAR_PR)
    } else if level == 2 {
        (3u32, H2_CHAR_PR)
    } else if level == 3 {
        (4u32, H3_CHAR_PR)
    } else if level == 4 {
        (5u32, H4_CHAR_PR)
    } else if level == 5 {
        (6u32, BOLD_CHAR_PR)
    } else {
        (7u32, BOLD_CHAR_PR)
    };
    ParagraphStyle {
        para_pr: p,
        style: p,
        default_char_pr: c,
        line_seg: LineSegProfile::Standard,
        list_semantic: ListSemantic::NotListed,
    }
}

pub fn normal_style() -> (s: ParagraphStyle)
    ensures
        s == spec_normal_style(),
{
    ParagraphStyle {
        para_pr: 0,
        style: 0,
        default_char_pr: NORMAL_CHAR_PR,
        line_seg: LineSegProfile::Standard,
        list_semantic: ListSemantic::NotListed,
    }
}

pub fn unordered_list_style(depth: u8) -> (s: ParagraphStyle)
    ensures
        s == spec_unordered_list_style(depth as nat),
{
    ParagraphStyle {
        para_pr: if depth == 1 { LIST_LEVEL1_PARA_PR } else { LIST_LEVEL2_PARA_PR },
        style: 0,
        default_char_pr: NORMAL_CHAR_PR,
        line_seg: if depth == 1 { LineSegProfile::ListLevel1 } else { LineSegProfile::ListLevel2 },
        list_semantic: ListSemantic::Unordered,
    }
}

pub fn ordered_list_style(shape: OrderedListShape, depth: u8) -> (s: ParagraphStyle)
    ensures
        s == spec_ordered_list_style(shape, depth as nat),
{
    match shape {
        OrderedListShape::SingleLevel => ParagraphStyle {
            para_pr: LIST_LEVEL1_PARA_PR,
            style: 0,
            default_char_pr: NORMAL_CHAR_PR,
            line_seg: LineSegProfile::ListLevel1,
            list_semantic: ListSemantic::OrderedSingleLevel,
        },
        OrderedListShape::NestedDepth2 => {
            if depth == 1 {
                ParagraphStyle {
                    para_pr: LIST_LEVEL2_PARA_PR,
                    style: 0,
                    default_char_pr: NORMAL_CHAR_PR,
                    line_seg: LineSegProfile::ListLevel1,
                    list_semantic: ListSemantic::OrderedTopLevel,
                }
            } else {
                ParagraphStyle {
                    para_pr: LIST_LEVEL1_PARA_PR,
                    style: 0,
                    default_char_pr: NORMAL_CHAR_PR,
                    line_seg: LineSegProfile::ListLevel2,
                    list_semantic: ListSemantic::OrderedNestedLevel,
                }
            }
        },
    }
}

pub fn heading_style(level: u8) -> (s: ParagraphStyle)
    ensures
        s == spec_heading_style(level),
{
    let (p, c) = if level == 1 {
        (2u32, H1_CHAR_PR)
    } else if level == 2 {
        (3u32, H2_CHAR_PR)
    } else if level == 3 {
        (4u32, H3_CHAR_PR)
    } else if level == 4 {
        (5u32, H4_CHAR_PR)
    } else if level == 5 {
        (6u32, BOLD_CHAR_PR)
    } else {
        (7u32, BOLD_CHAR_PR)
    };
    ParagraphStyle {
        para_pr: p,
        style: p,
        default_char_pr: c,
        line_seg: LineSegProfile::Standard,
        list_semantic: ListSemantic::NotListed,
    }
}

/// Texts joined with a separator.
pub open spec fn spec_join(parts: Seq<Seq<char>>, sep: Seq<char>) -> Seq<char>
    decreases parts.len(),
{
    if parts.len() == 0 {
        seq![]
    } else if parts.len() == 1 {
        parts[0]
    } else {
        spec_join(parts.drop_last(), sep) + sep + parts.last()
    }
}

/// Texts joined with a separator.
pub fn join_strings(parts: &Vec<String>, sep: &str) -> (s: String)
    ensures
        s@ == spec_join(strings_view(parts@), sep@),
{
    let ghost v = strings_view(parts@);
    let mut s = String::new();
    let mut i: usize = 0;
    while i < parts.len()
        invariant
            i <= parts.len(),
            v == strings_view(parts@),
            s@ == spec_join(v.take(i as int), sep@),
        decreases parts.len() - i,
    {
        assert(v.take(i + 1).drop_last() == v.take(i as int));
        assert(v.take(i + 1).last() == parts@[i as int]@);
        if i > 0 {
            s.append(sep);
        } else {
            assert(v.take(1) =~= seq![parts@[0]@]);
        }
        s.append(parts[i].as_str());
        i += 1;
    }
    assert(v.take(v.len() as int) == v);
    s
}

/// The plain text of each cell, outside strict mode.
pub open spec fn spec_lenient_cells(cells: Seq<Seq<InlineV>>) -> Seq<Seq<char>> {
    Seq::new(cells.len(), |k: int| spec_flatten_lenient(cells[k]))
}

pub open spec fn list_item_prefix(l: ListBlockV, index: nat) -> Seq<char> {
    if l.ordered {
        decimal(if l.start_index + index <= u64::MAX { (l.start_index + index) as nat } else { u64::MAX as nat }) + ". "@
    } else {
        "- "@
    }
}

/// The plain paragraphs of a block: what HWPX shows of content it does not model.
pub open spec fn spec_flatten_block(b: BlockV) -> Seq<Seq<char>>
    decreases b, 1int,
{
    match b {
        BlockV::Paragraph(content) => seq![spec_flatten_lenient(content)],
        BlockV::Heading { content, .. } => seq![spec_flatten_lenient(content)],
        BlockV::BlockQuote(blocks) => spec_flatten_blocks(blocks),
        BlockV::CodeBlock { code, .. } => spec_lines(code),
        BlockV::List(l) => spec_flatten_items(l, l.items),
        BlockV::Table(t) => (if t.headers.len() > 0 { seq![spec_join(spec_lenient_cells(t.headers), " | "@)] } else { seq![] })
            + Seq::new(t.rows.len(), |k: int| spec_join(spec_lenient_cells(t.rows[k]), " | "@)),
        BlockV::ThematicBreak => seq!["---"@],
    }
}

/// The plain paragraphs of blocks, in order.
pub open spec fn spec_flatten_blocks(bs: Seq<BlockV>) -> Seq<Seq<char>>
    decreases bs, 0int,
{
    if bs.len() == 0 {
        seq![]
    } else {
        spec_flatten_blocks(bs.drop_last()) + spec_flatten_block(bs.last())
    }
}

/// One paragraph per list item: its marker and its blocks' paragraphs joined by spaces.
pub open spec fn spec_flatten_items(l: ListBlockV, items: Seq<Seq<BlockV>>) -> Seq<Seq<char>>
    decreases items, 0int,
{
    if items.len() == 0 {
        seq![]
    } else {
        spec_flatten_items(l, items.drop_last()).push(
            list_item_prefix(l, (items.len() - 1) as nat) + spec_join(spec_flatten_blocks(items.last()), " "@),
        )
    }
}

/// A plain paragraph.
pub open spec fn plain_item(text: Seq<char>) -> SectionItemV {
    SectionItemV::Paragraph(spec_normal_style(), seq![(NORMAL_CHAR_PR, text)])
}

pub open spec fn plain_items(paras: Seq<Seq<char>>) -> Seq<SectionItemV> {
    Seq::new(paras.len(), |k: int| plain_item(paras[k]))
}

pub fn plain_paragraph_item(text: String) -> (i: SectionItem)
    ensures
        i@ == plain_item(text@),
{
    let mut runs: Vec<RunSpec> = Vec::new();
    runs.push(RunSpec { char_pr: NORMAL_CHAR_PR, text });
    let i = SectionItem::Paragraph(normal_style(), runs);
    assert(runs_view(runs@) =~= seq![(NORMAL_CHAR_PR, text@)]);
    i
}

fn lenient_text(inlines: &Vec<Inline>) -> (t: String)
    ensures
        t@ == spec_flatten_lenient(inlines_view(inlines@)),
{
    proof { lemma_flatten_lenient(inlines_view(inlines@)); }
    match flatten_inline_children(inlines, false) {
        Ok(t) => t,
        Err(_) => String::new(),
    }
}

fn lenient_cells_joined(cells: &Vec<Vec<Inline>>) -> (t: String)
    ensures
        t@ == spec_join(spec_lenient_cells(cells_view(cells@)), " | "@),
{
    let mut texts: Vec<String> = Vec::new();
    let mut i: usize = 0;
    while i < cells.len()
        invariant
            i <= cells.len(),
            strings_view(texts@) == spec_lenient_cells(cells_view(cells@)).take(i as int),
        decreases cells.len() - i,
    {
        let ghost before = strings_view(texts@);
        let t = lenient_text(&cells[i]);
        let ghost tv = t@;
        texts.push(t);
        assert(strings_view(texts@) =~= before.push(tv));
        assert(spec_lenient_cells(cells_view(cells@))[i as int] == tv);
        assert(strings_view(texts@) =~= spec_lenient_cells(cells_view(cells@)).take(i + 1));
        i += 1;
    }
    assert(spec_lenient_cells(cells_view(cells@)).take(cells.len() as int) =~= spec_lenient_cells(cells_view(cells@)));
    join_strings(&texts, " | ")
}

fn item_prefix(list: &ListBlock, index: usize) -> (s: String)
    ensures
        s@ == list_item_prefix(list_view(*list), index as nat),
{
    if list.ordered {
        let mut s = decimal_string(list.start_index.saturating_add(index as u64));
        s.append(". ");
        s
    } else {
        owned("- ")
    }
}

/// The plain paragraphs of a block.
pub fn flatten_block_to_paragraphs(block: &Block) -> (paras: Vec<String>)
    ensures
        strings_view(paras@) == spec_flatten_block(block@),
    decreases block, 1int,
{
    match block {
        Block::Paragraph(content) => {
            let mut v: Vec<String> = Vec::new();
            v.push(lenient_text(content));
            assert(strings_view(v@) =~= spec_flatten_block(block@));
            v
        },
        Block::Heading { content, .. } => {
            let mut v: Vec<String> = Vec::new();
            v.push(lenient_text(content));
            assert(strings_view(v@) =~= spec_flatten_block(block@));
            v
        },
        Block::BlockQuote(blocks) => flatten_blocks(blocks),
        Block::CodeBlock { code, .. } => {
            let lines = lines_of(code.as_str());
            assert(strings_view(lines@) =~= crate::generators::docx::render::strings_view(lines@));
            lines
        },
        Block::List(list) => flatten_list_items(list),
        Block::Table(table) => {
            let mut v: Vec<String> = Vec::new();
            if table.headers.len() > 0 {
                v.push(lenient_cells_joined(&table.headers));
            }
            let ghost head = strings_view(v@);
            let ghost tv = table_view(*table);
            let mut k: usize = 0;
            while k < table.rows.len()
                invariant
                    k <= table.rows.len(),
                    tv == table_view(*table),
                    strings_view(v@) == head + Seq::new(k as nat, |j: int| spec_join(spec_lenient_cells(tv.rows[j]), " | "@)),
                decreases table.rows.len() - k,
            {
                let t = lenient_cells_joined(&table.rows[k].cells);
                let ghost prev = strings_view(v@);
                let ghost tt = t@;
                v.push(t);
                assert(strings_view(v@) =~= prev.push(tt));
                assert(tv.rows[k as int] == cells_view(table.rows@[k as int].cells@));
                assert(strings_view(v@) =~= head + Seq::new((k + 1) as nat, |j: int| spec_join(spec_lenient_cells(tv.rows[j]), " | "@)));
                k += 1;
            }
            assert(strings_view(v@) =~= spec_flatten_block(block@));
            v
        },
        Block::ThematicBreak => {
            let mut v: Vec<String> = Vec::new();
            v.push(owned("---"));
            assert(strings_view(v@) =~= spec_flatten_block(block@));
            v
        },
    }
}

fn flatten_blocks(blocks: &Vec<Block>) -> (paras: Vec<String>)
    ensures
        strings_view(paras@) == spec_flatten_blocks(blocks_view(blocks@)),
    decreases blocks, 0int,
{
    let ghost bv = blocks_view(blocks@);
    let mut out: Vec<String> = Vec::new();
    let mut i: usize = 0;
    assert(strings_view(out@) =~= seq![]);
    while i < blocks.len()
        invariant
            i <= blocks.len(),
            bv == blocks_view(blocks@),
            strings_view(out@) == spec_flatten_blocks(bv.take(i as int)),
        decreases blocks.len() - i,
    {
        assert(bv.take(i + 1).drop_last() == bv.take(i as int));
        assert(bv.take(i + 1).last() == blocks@[i as int]@);
        proof {
            assert(decreases_to!(blocks => blocks@));
            assert(decreases_to!(blocks@ => blocks@[i as int]));
        }
        let part = flatten_block_to_paragraphs(&blocks[i]);
        let ghost before = strings_view(out@);
        let ghost pv = strings_view(part@);
        let mut k: usize = 0;
        while k < part.len()
            invariant
                k <= part.len(),
                pv == strings_view(part@),
                strings_view(out@) == before + pv.take(k as int),
            decreases part.len() - k,
        {
            let ghost prev = strings_view(out@);
            let c = part[k].clone();
            let ghost cv = c@;
            out.push(c);
            assert(strings_view(out@) =~= prev.push(cv));
            assert(pv[k as int] == cv);
            assert(strings_view(out@) =~= before + pv.take(k + 1));
            k += 1;
        }
        assert(pv.take(pv.len() as int) == pv);
        i += 1;
    }
    assert(bv.take(bv.len() as int) == bv);
    out
}

pub fn flatten_list_items(list: &ListBlock) -> (paras: Vec<String>)
    ensures
        strings_view(paras@) == spec_flatten_items(list_view(*list), items_view(list.items@)),
    decreases list, 0int,
{
    let ghost lv = list_view(*list);
    let ghost iv = items_view(list.items@);
    let mut out: Vec<String> = Vec::new();
    let mut k: usize = 0;
    assert(strings_view(out@) =~= seq![]);
    while k < list.items.len()
        invariant
            k <= list.items.len(),
            lv == list_view(*list),
            iv == items_view(list.items@),
            strings_view(out@) == spec_flatten_items(lv, iv.take(k as int)),
        decreases list.items.len() - k,
    {
        assert(iv.take(k + 1).drop_last() == iv.take(k as int));
        assert(iv.take(k + 1).last() == blocks_view(list.items@[k as int].blocks@));
        proof {
            assert(decreases_to!(list => list.items));
            assert(decreases_to!(list.items => list.items@));
            assert(decreases_to!(list.items@ => list.items@[k as int]));
            assert(decreases_to!(list.items@[k as int] => list.items@[k as int].blocks));
        }
        let body_parts = flatten_blocks(&list.items[k].blocks);
        let body = join_strings(&body_parts, " ");
        let mut line = item_prefix(list, k);
        line.append(body.as_str());
        let ghost before = strings_view(out@);
        out.push(line);
        assert(strings_view(out@) =~= before.push(line@));
        k += 1;
    }
    assert(iv.take(iv.len() as int) == iv);
    out
}

pub open spec fn max_u8(a: u8, b: u8) -> u8 {
    if a >= b { a } else { b }
}

/// How deep ordered lists nest in a block (counting from one at the top ordered
/// list, through quotes; an unordered list counts nothing); the count wraps past 255.
pub open spec fn spec_ordered_depth(b: BlockV) -> u8
    decreases b, 1int,
{
    match b {
        BlockV::List(l) => if l.ordered {
            let nested = spec_ordered_depth_items(l.items);
            if nested < 255 { (nested + 1) as u8 } else { 0 }
        } else {
            0
        },
        BlockV::BlockQuote(bs) => spec_ordered_depth_blocks(bs),
        _ => 0,
    }
}

pub open spec fn spec_ordered_depth_blocks(bs: Seq<BlockV>) -> u8
    decreases bs, 0int,
{
    if bs.len() == 0 { 0 } else { max_u8(spec_ordered_depth_blocks(bs.drop_last()), spec_ordered_depth(bs.last())) }
}

pub open spec fn spec_ordered_depth_items(items: Seq<Seq<BlockV>>) -> u8
    decreases items, 0int,
{
    if items.len() == 0 { 0 } else { max_u8(spec_ordered_depth_items(items.drop_last()), spec_ordered_depth_blocks(items.last())) }
}

/// The shape of the document's ordered lists: one level, two levels, or none (also
/// when they nest deeper).
pub open spec fn spec_ordered_list_shape(bs: Seq<BlockV>) -> Option<OrderedListShape> {
    let d = spec_ordered_depth_blocks(bs);
    if d == 1 {
        Some(OrderedListShape::SingleLevel)
    } else if d == 2 {
        Some(OrderedListShape::NestedDepth2)
    } else {
        None
    }
}

fn ordered_depth(block: &Block) -> (d: u8)
    ensures
        d == spec_ordered_depth(block@),
    decreases block, 1int,
{
    match block {
        Block::List(list) => {
            if list.ordered {
                let ghost iv = items_view(list.items@);
                let mut nested: u8 = 0;
                let mut k: usize = 0;
                while k < list.items.len()
                    invariant
                        k <= list.items.len(),
                        *block == Block::List(*list),
                        iv == items_view(list.items@),
                        nested == spec_ordered_depth_items(iv.take(k as int)),
                    decreases list.items.len() - k,
                {
                    assert(iv.take(k + 1).drop_last() == iv.take(k as int));
                    assert(iv.take(k + 1).last() == blocks_view(list.items@[k as int].blocks@));
                    proof {
                        assert(decreases_to!(*block => block->List_0));
                        assert(decreases_to!(list => list.items));
                        assert(decreases_to!(list.items => list.items@));
                        assert(decreases_to!(list.items@ => list.items@[k as int]));
                        assert(decreases_to!(list.items@[k as int] => list.items@[k as int].blocks));
                    }
                    let d = ordered_depth_blocks(&list.items[k].blocks);
                    nested = if nested >= d { nested } else { d };
                    k += 1;
                }
                assert(iv.take(iv.len() as int) == iv);
                if nested < 255 { nested + 1 } else { 0 }
            } else {
                0
            }
        },
        Block::BlockQuote(blocks) => ordered_depth_blocks(blocks),
        _ => 0,
    }
}

pub(crate) fn ordered_depth_blocks(blocks: &Vec<Block>) -> (d: u8)
    ensures
        d == spec_ordered_depth_blocks(blocks_view(blocks@)),
    decreases blocks, 0int,
{
    let ghost bv = blocks_view(blocks@);
    let mut m: u8 = 0;
    let mut i: usize = 0;
    while i < blocks.len()
        invariant
            i <= blocks.len(),
            bv == blocks_view(blocks@),
            m == spec_ordered_depth_blocks(bv.take(i as int)),
        decreases blocks.len() - i,
    {
        assert(bv.take(i + 1).drop_last() == bv.take(i as int));
        assert(bv.take(i + 1).last() == blocks@[i as int]@);
        proof {
            assert(decreases_to!(blocks => blocks@));
            assert(decreases_to!(blocks@ => blocks@[i as int]));
        }
        let d = ordered_depth(&blocks[i]);
        m = if m >= d { m } else { d };
        i += 1;
    }
    assert(bv.take(bv.len() as int) == bv);
    m
}

/// The shape of the document's ordered lists.
pub fn ordered_list_shape(blocks: &Vec<Block>) -> (s: Option<OrderedListShape>)
    ensures
        s == spec_ordered_list_shape(blocks_view(blocks@)),
{
    let d = ordered_depth_blocks(blocks);
    if d == 1 {
        Some(OrderedListShape::SingleLevel)
    } else if d == 2 {
        Some(OrderedListShape::NestedDepth2)
    } else {
        None
    }
}

/// Equal column widths over the table width; the last column takes the remainder.
pub open spec fn spec_equal_widths(count: nat) -> Seq<u32> {
    if count == 0 {
        seq![]
    } else {
        let base = (41954nat / count) as u32;
        let rem = (41954nat % count) as u32;
        Seq::new(count, |i: int| if i == count - 1 { (base + rem) as u32 } else { base })
    }
}

pub fn equal_widths(count: usize) -> (w: Vec<u32>)
    ensures
        w@ == spec_equal_widths(count as nat),
{
    let mut w: Vec<u32> = Vec::new();
    if count == 0 {
        assert(w@ =~= spec_equal_widths(0));
        return w;
    }
    let b64: u64 = 41954u64 / (count as u64);
    let r64: u64 = 41954u64 % (count as u64);
    assert(b64 <= 41954 && r64 <= 41954 && b64 == 41954int / (count as int) && r64 == 41954int % (count as int)) by (nonlinear_arith)
        requires
            b64 == 41954u64 / (count as u64),
            r64 == 41954u64 % (count as u64),
            count > 0,
    {
    }
    let base: u32 = b64 as u32;
    let rem: u32 = r64 as u32;
    assert(base + rem <= 41954) by (nonlinear_arith)
        requires
            base == 41954int / (count as int),
            rem == 41954int % (count as int),
            count > 0,
    {
    }
    let mut i: usize = 0;
    while i < count
        invariant
            i <= count,
            count > 0,
            base == (41954nat / count as nat) as u32,
            rem == (41954nat % count as nat) as u32,
            base + rem <= 41954,
            w@ == Seq::new(i as nat, |j: int| if j == count - 1 { (base + rem) as u32 } else { base }),
        decreases count - i,
    {
        if i == count - 1 {
            w.push(base + rem);
        } else {
            w.push(base);
        }
        assert(w@ =~= Seq::new((i + 1) as nat, |j: int| if j == count - 1 { (base + rem) as u32 } else { base }));
        i += 1;
    }
    w
}

/// The cell texts of a row.
pub open spec fn spec_flatten_cells(cells: Seq<Seq<InlineV>>, strict: bool) -> Result<Seq<Seq<char>>, ErrorV>
    decreases cells.len(),
{
    if cells.len() == 0 {
        Ok(seq![])
    } else {
        match spec_flatten_cells(cells.drop_last(), strict) {
            Err(e) => Err(e),
            Ok(x) => match spec_flatten(cells.last(), strict) {
                Err(e) => Err(e),
                Ok(t) => Ok(x.push(t)),
            },
        }
    }
}

/// The cell texts of the header row (when it has cells) and the body rows.
pub open spec fn spec_table_rows(t: TableBlockV, strict: bool) -> Result<Seq<Seq<Seq<char>>>, ErrorV>
    decreases t.rows.len(),
{
    if t.rows.len() == 0 {
        if t.headers.len() > 0 {
            match spec_flatten_cells(t.headers, strict) {
                Err(e) => Err(e),
                Ok(h) => Ok(seq![h]),
            }
        } else {
            Ok(seq![])
        }
    } else {
        match spec_table_rows(TableBlockV { rows: t.rows.drop_last(), ..t }, strict) {
            Err(e) => Err(e),
            Ok(x) => match spec_flatten_cells(t.rows.last(), strict) {
                Err(e) => Err(e),
                Ok(r) => Ok(x.push(r)),
            },
        }
    }
}

pub open spec fn spec_max_len(rows: Seq<Seq<Seq<char>>>) -> nat
    decreases rows.len(),
{
    if rows.len() == 0 {
        0
    } else {
        let m = spec_max_len(rows.drop_last());
        if rows.last().len() > m { rows.last().len() } else { m }
    }
}

/// A row padded with empty cells to `n` cells.
pub open spec fn spec_pad(row: Seq<Seq<char>>, n: nat) -> Seq<Seq<char>> {
    Seq::new(n, |k: int| if k < row.len() { row[k] } else { seq![] })
}

/// A table: its rows of cell texts padded to the widest row, with equal column widths.
pub open spec fn spec_build_table(t: TableBlockV, strict: bool, id: u64) -> Result<TableV, ErrorV> {
    match spec_table_rows(t, strict) {
        Err(e) => Err(e),
        Ok(rows) => {
            let n = spec_max_len(rows);
            Ok(TableV { id, rows: Seq::new(rows.len(), |k: int| spec_pad(rows[k], n)), widths: spec_equal_widths(n) })
        },
    }
}

proof fn lemma_flatten_cells_err(cells: Seq<Seq<InlineV>>, strict: bool, k: int)
    requires
        0 <= k <= cells.len(),
        spec_flatten_cells(cells.take(k), strict) is Err,
    ensures
        spec_flatten_cells(cells, strict) == spec_flatten_cells(cells.take(k), strict),
    decreases cells.len(),
{
    if cells.len() == k {
        assert(cells.take(k) == cells);
    } else {
        assert(cells.drop_last().take(k) == cells.take(k));
        lemma_flatten_cells_err(cells.drop_last(), strict, k);
    }
}

fn flatten_cells(cells: &Vec<Vec<Inline>>, strict_mode: bool) -> (r: Result<Vec<String>, CoreRsError>)
    ensures
        match spec_flatten_cells(cells_view(cells@), strict_mode) {
            Ok(x) => r matches Ok(v) && strings_view(v@) == x,
            Err(e) => r matches Err(er) && er@ == e,
        },
{
    let ghost cv = cells_view(cells@);
    let mut out: Vec<String> = Vec::new();
    let mut i: usize = 0;
    assert(strings_view(out@) =~= seq![]);
    while i < cells.len()
        invariant
            i <= cells.len(),
            cv == cells_view(cells@),
            spec_flatten_cells(cv.take(i as int), strict_mode) == Ok::<Seq<Seq<char>>, ErrorV>(strings_view(out@)),
        decreases cells.len() - i,
    {
        assert(cv.take(i + 1).drop_last() == cv.take(i as int));
        assert(cv.take(i + 1).last() == inlines_view(cells@[i as int]@));
        match flatten_inline_children(&cells[i], strict_mode) {
            Ok(t) => {
                let ghost prev = strings_view(out@);
                let ghost tv = t@;
                out.push(t);
                assert(strings_view(out@) =~= prev.push(tv));
            },
            Err(e) => {
                assert(spec_flatten_cells(cv.take(i + 1), strict_mode) == Err::<Seq<Seq<char>>, ErrorV>(e@));
                proof { lemma_flatten_cells_err(cv, strict_mode, i + 1); }
                return Err(e);
            },
        }
        i += 1;
    }
    assert(cv.take(cv.len() as int) == cv);
    Ok(out)
}

proof fn lemma_table_rows_err(t: TableBlockV, strict: bool, k: int)
    requires
        0 <= k <= t.rows.len(),
        spec_table_rows(TableBlockV { rows: t.rows.take(k), ..t }, strict) is Err,
    ensures
        spec_table_rows(t, strict) == spec_table_rows(TableBlockV { rows: t.rows.take(k), ..t }, strict),
    decreases t.rows.len(),
{
    if t.rows.len() == k {
        assert(t.rows.take(k) == t.rows);
        assert(TableBlockV { rows: t.rows.take(k), ..t } == t);
    } else {
        let t2 = TableBlockV { rows: t.rows.drop_last(), ..t };
        assert(t2.rows.take(k) == t.rows.take(k));
        lemma_table_rows_err(t2, strict, k);
        assert(TableBlockV { rows: t2.rows.take(k), ..t2 } == TableBlockV { rows: t.rows.take(k), ..t });
    }
}

/// Builds a table from a table block.
pub fn build_table_spec(table: &TableBlock, strict_mode: bool, id: u64) -> (r: Result<TableSpec, CoreRsError>)
    ensures
        match spec_build_table(table_view(*table), strict_mode, id) {
            Ok(t) => r matches Ok(x) && x@ == t,
            Err(e) => r matches Err(er) && er@ == e,
        },
{
    let ghost tv = table_view(*table);
    let mut rows: Vec<Vec<String>> = Vec::new();
    if table.headers.len() > 0 {
        match flatten_cells(&table.headers, strict_mode) {
            Ok(header) => rows.push(header),
            Err(e) => {
                assert(tv.rows.take(0) =~= seq![]);
                assert(spec_table_rows(TableBlockV { rows: tv.rows.take(0), ..tv }, strict_mode) == Err::<Seq<Seq<Seq<char>>>, ErrorV>(e@));
                proof { lemma_table_rows_err(tv, strict_mode, 0); }
                return Err(e);
            },
        }
    }
    assert(spec_table_rows(TableBlockV { rows: tv.rows.take(0), ..tv }, strict_mode) == Ok::<Seq<Seq<Seq<char>>>, ErrorV>(string_rows_view(rows@))) by {
        assert(tv.rows.take(0) =~= seq![]);
        assert(string_rows_view(rows@) =~= (if tv.headers.len() > 0 { seq![spec_flatten_cells(tv.headers, strict_mode)->Ok_0] } else { seq![] }));
    }
    let mut i: usize = 0;
    while i < table.rows.len()
        invariant
            i <= table.rows.len(),
            tv == table_view(*table),
            spec_table_rows(TableBlockV { rows: tv.rows.take(i as int), ..tv }, strict_mode) == Ok::<Seq<Seq<Seq<char>>>, ErrorV>(string_rows_view(rows@)),
        decreases table.rows.len() - i,
    {
        let ghost t_next = TableBlockV { rows: tv.rows.take(i + 1), ..tv };
        assert(t_next.rows.drop_last() == tv.rows.take(i as int));
        assert(t_next.rows.last() == cells_view(table.rows@[i as int].cells@));
        assert(TableBlockV { rows: t_next.rows.drop_last(), ..t_next } == TableBlockV { rows: tv.rows.take(i as int), ..tv });
        match flatten_cells(&table.rows[i].cells, strict_mode) {
            Ok(cells) => {
                let ghost prev = string_rows_view(rows@);
                let ghost cv = strings_view(cells@);
                rows.push(cells);
                assert(string_rows_view(rows@) =~= prev.push(cv));
            },
            Err(e) => {
                assert(spec_table_rows(t_next, strict_mode) == Err::<Seq<Seq<Seq<char>>>, ErrorV>(e@));
                proof { lemma_table_rows_err(tv, strict_mode, i + 1); }
                assert(tv.rows.take(tv.rows.len() as int) == tv.rows);
                assert(TableBlockV { rows: tv.rows.take(tv.rows.len() as int), ..tv } == tv);
                return Err(e);
            },
        }
        i += 1;
    }
    assert(tv.rows.take(tv.rows.len() as int) == tv.rows);
    assert(TableBlockV { rows: tv.rows.take(tv.rows.len() as int), ..tv } == tv);
    let ghost rv = string_rows_view(rows@);
    let mut col_count: usize = 0;
    let mut k: usize = 0;
    while k < rows.len()
        invariant
            k <= rows.len(),
            rv == string_rows_view(rows@),
            col_count == spec_max_len(rv.take(k as int)),
        decreases rows.len() - k,
    {
        assert(rv.take(k + 1).drop_last() == rv.take(k as int));
        assert(rv.take(k + 1).last().len() == rows@[k as int]@.len());
        if rows[k].len() > col_count {
            col_count = rows[k].len();
        }
        k += 1;
    }
    assert(rv.take(rv.len() as int) == rv);
    proof { lemma_max_len(rv); }
    let mut padded: Vec<Vec<String>> = Vec::new();
    let mut j: usize = 0;
    while j < rows.len()
        invariant
            j <= rows.len(),
            rv == string_rows_view(rows@),
            col_count == spec_max_len(rv),
            forall|m: int| 0 <= m < rv.len() ==> #[trigger] rv[m].len() <= col_count,
            string_rows_view(padded@) == Seq::new(j as nat, |m: int| spec_pad(rv[m], col_count as nat)),
        decreases rows.len() - j,
    {
        let mut row: Vec<String> = Vec::new();
        let ghost src = strings_view(rows@[j as int]@);
        assert(src == rv[j as int]);
        let mut c: usize = 0;
        while c < col_count
            invariant
                c <= col_count,
                src.len() <= col_count,
                src == strings_view(rows@[j as int]@),
                j < rows.len(),
                strings_view(row@) == Seq::new(c as nat, |m: int| if m < src.len() { src[m] } else { seq![] }),
            decreases col_count - c,
        {
            let cell = if c < rows[j].len() { rows[j][c].clone() } else { String::new() };
            let ghost prev = strings_view(row@);
            let ghost cv = cell@;
            row.push(cell);
            assert(strings_view(row@) =~= prev.push(cv));
            assert(strings_view(row@) =~= Seq::new((c + 1) as nat, |m: int| if m < src.len() { src[m] } else { seq![] }));
            c += 1;
        }
        let ghost prev_rows = string_rows_view(padded@);
        let ghost row_v = strings_view(row@);
        padded.push(row);
        assert(string_rows_view(padded@) =~= prev_rows.push(row_v));
        assert(row_v =~= spec_pad(rv[j as int], col_count as nat));
        assert(string_rows_view(padded@) =~= Seq::new((j + 1) as nat, |m: int| spec_pad(rv[m], col_count as nat)));
        j += 1;
    }
    let widths = equal_widths(col_count);
    assert forall|r: int| 0 <= r < padded@.len() implies #[trigger] padded@[r]@.len() == widths@.len() by {
        assert(string_rows_view(padded@)[r] == strings_view(padded@[r]@));
    }
    let t = TableSpec { id, rows: padded, col_widths: widths };
    assert(t@.rows =~= spec_build_table(tv, strict_mode, id)->Ok_0.rows);
    Ok(t)
}

proof fn lemma_max_len(rows: Seq<Seq<Seq<char>>>)
    ensures
        forall|m: int| 0 <= m < rows.len() ==> #[trigger] rows[m].len() <= spec_max_len(rows),
    decreases rows.len(),
{
    if rows.len() > 0 {
        lemma_max_len(rows.drop_last());
        assert forall|m: int| 0 <= m < rows.len() implies #[trigger] rows[m].len() <= spec_max_len(rows) by {
            if m < rows.len() - 1 {
                assert(rows.drop_last()[m] == rows[m]);
            }
        }
    }
}

/// The inner width of a cell: its width less the cell margins, not below zero.
pub open spec fn inner_width(width: u32) -> nat {
    if width >= 1021 { (width - 1021) as nat } else { 0 }
}

/// One table cell.
pub open spec fn spec_table_cell(text: Seq<char>, row: nat, col: nat, width: u32) -> Seq<char> {
    "<hp:tc name=\"\" header=\"0\" hasMargin=\"0\" protect=\"0\" editable=\"0\" dirty=\"0\" borderFillIDRef=\"3\">"@
        + "<hp:subList id=\"\" textDirection=\"HORIZONTAL\" lineWrap=\"BREAK\" vertAlign=\"CENTER\" linkListIDRef=\"0\" linkListNextIDRef=\"0\" textWidth=\"0\" textHeight=\"0\" hasTextRef=\"0\" hasNumRef=\"0\">"@
        + "<hp:p id=\"0\" paraPrIDRef=\"0\" styleIDRef=\"0\" pageBreak=\"0\" columnBreak=\"0\" merged=\"0\">"@
        + "<hp:run charPrIDRef=\"6\"><hp:t>"@ + spec_escape_text(text) + "</hp:t></hp:run>"@
        + (if col > 0 { "<hp:run charPrIDRef=\"6\"/>"@ } else { seq![] })
        + "<hp:linesegarray><hp:lineseg textpos=\"0\" vertpos=\"0\" vertsize=\"1000\" textheight=\"1000\" baseline=\"850\" spacing=\"600\" horzpos=\"0\" horzsize=\""@
        + decimal(inner_width(width)) + "\" flags=\"393216\"/></hp:linesegarray>"@ + "</hp:p></hp:subList>"@
        + "<hp:cellAddr colAddr=\""@ + decimal(col) + "\" rowAddr=\""@ + decimal(row) + "\"/>"@
        + "<hp:cellSpan colSpan=\"1\" rowSpan=\"1\"/>"@ + "<hp:cellSz width=\""@ + decimal(width as nat)
        + "\" height=\"282\"/>"@ + "<hp:cellMargin left=\"510\" right=\"510\" top=\"141\" bottom=\"141\"/>"@
        + "</hp:tc>"@
}

pub open spec fn spec_row_cells_xml(cells: Seq<Seq<char>>, row: nat, widths: Seq<u32>) -> Seq<char>
    decreases cells.len(),
{
    if cells.len() == 0 {
        seq![]
    } else {
        let c = (cells.len() - 1) as nat;
        spec_row_cells_xml(cells.drop_last(), row, widths) + spec_table_cell(cells.last(), row, c, widths[c as int])
    }
}

pub open spec fn spec_rows_xml(rows: Seq<Seq<Seq<char>>>, widths: Seq<u32>) -> Seq<char>
    decreases rows.len(),
{
    if rows.len() == 0 {
        seq![]
    } else {
        spec_rows_xml(rows.drop_last(), widths) + "<hp:tr>"@
            + spec_row_cells_xml(rows.last(), (rows.len() - 1) as nat, widths) + "</hp:tr>"@
    }
}

/// The table height: 1282 per row, in `u32` arithmetic on the row count as `u32`
/// (wrapping).
pub open spec fn table_height(rows: nat) -> nat {
    (1282 * (rows % 4294967296)) % 4294967296
}

/// A table's markup.
pub open spec fn spec_table_xml(t: TableV) -> Seq<char> {
    "<hp:tbl id=\""@ + decimal(t.id as nat)
        + "\" zOrder=\"0\" numberingType=\"TABLE\" textWrap=\"TOP_AND_BOTTOM\" textFlow=\"BOTH_SIDES\" lock=\"0\" dropcapstyle=\"None\" pageBreak=\"CELL\" repeatHeader=\"1\" rowCnt=\""@
        + decimal(t.rows.len()) + "\" colCnt=\""@ + decimal(t.widths.len())
        + "\" cellSpacing=\"0\" borderFillIDRef=\"3\" noAdjust=\"0\">"@ + "<hp:sz width=\"41954\" widthRelTo=\"ABSOLUTE\" height=\""@
        + decimal(table_height(t.rows.len())) + "\" heightRelTo=\"ABSOLUTE\" protect=\"0\"/>"@
        + "<hp:pos treatAsChar=\"1\" affectLSpacing=\"0\" flowWithText=\"1\" allowOverlap=\"0\" holdAnchorAndSO=\"0\" vertRelTo=\"PARA\" horzRelTo=\"COLUMN\" vertAlign=\"TOP\" horzAlign=\"LEFT\" vertOffset=\"0\" horzOffset=\"0\"/>"@
        + "<hp:outMargin left=\"283\" right=\"283\" top=\"283\" bottom=\"283\"/>"@
        + "<hp:inMargin left=\"510\" right=\"510\" top=\"141\" bottom=\"141\"/>"@ + spec_rows_xml(t.rows, t.widths)
        + "</hp:tbl>"@
}

fn render_table_cell(text: &str, row_index: usize, col_index: usize, width: u32) -> (s: String)
    ensures
        s@ == spec_table_cell(text@, row_index as nat, col_index as nat, width),
{
    let inner = width.saturating_sub(1021);
    let escaped = escape_text(text);
    let mut s = owned("<hp:tc name=\"\" header=\"0\" hasMargin=\"0\" protect=\"0\" editable=\"0\" dirty=\"0\" borderFillIDRef=\"3\">");
    s.append("<hp:subList id=\"\" textDirection=\"HORIZONTAL\" lineWrap=\"BREAK\" vertAlign=\"CENTER\" linkListIDRef=\"0\" linkListNextIDRef=\"0\" textWidth=\"0\" textHeight=\"0\" hasTextRef=\"0\" hasNumRef=\"0\">");
    s.append("<hp:p id=\"0\" paraPrIDRef=\"0\" styleIDRef=\"0\" pageBreak=\"0\" columnBreak=\"0\" merged=\"0\">");
    s.append("<hp:run charPrIDRef=\"6\"><hp:t>");
    s.append(escaped.as_str());
    s.append("</hp:t></hp:run>");
    let ghost before = s@;
    if col_index > 0 {
        s.append("<hp:run charPrIDRef=\"6\"/>");
    }
    assert(s@ =~= before + (if col_index > 0 { "<hp:run charPrIDRef=\"6\"/>"@ } else { seq![] }));
    s.append("<hp:linesegarray><hp:lineseg textpos=\"0\" vertpos=\"0\" vertsize=\"1000\" textheight=\"1000\" baseline=\"850\" spacing=\"600\" horzpos=\"0\" horzsize=\"");
    let inner_digits = decimal_string(inner as u64);
    s.append(inner_digits.as_str());
    s.append("\" flags=\"393216\"/></hp:linesegarray>");
    s.append("</hp:p></hp:subList>");
    s.append("<hp:cellAddr colAddr=\"");
    let col_digits = decimal_string(col_index as u64);
    s.append(col_digits.as_str());
    s.append("\" rowAddr=\"");
    let row_digits = decimal_string(row_index as u64);
    s.append(row_digits.as_str());
    s.append("\"/>");
    s.append("<hp:cellSpan colSpan=\"1\" rowSpan=\"1\"/>");
    s.append("<hp:cellSz width=\"");
    let width_digits = decimal_string(width as u64);
    s.append(width_digits.as_str());
    s.append("\" height=\"282\"/>");
    s.append("<hp:cellMargin left=\"510\" right=\"510\" top=\"141\" bottom=\"141\"/>");
    s.append("</hp:tc>");
    s
}

/// A table's markup.
pub fn render_table_xml(table: &TableSpec) -> (s: String)
    ensures
        s@ == spec_table_xml(table@),
{
    proof { use_type_invariant(table); }
    let ghost tv = table@;
    let row_count = table.rows.len();
    let col_count = table.col_widths.len();
    let rc_mod: u64 = (row_count as u64) % 4294967296u64;
    let height_wide: u64 = rc_mod * 1282u64 % 4294967296u64;
    let height: u32 = height_wide as u32;
    let mut s = owned("<hp:tbl id=\"");
    let id_digits = decimal_string(table.id);
    s.append(id_digits.as_str());
    s.append("\" zOrder=\"0\" numberingType=\"TABLE\" textWrap=\"TOP_AND_BOTTOM\" textFlow=\"BOTH_SIDES\" lock=\"0\" dropcapstyle=\"None\" pageBreak=\"CELL\" repeatHeader=\"1\" rowCnt=\"");
    let rc_digits = decimal_string(row_count as u64);
    s.append(rc_digits.as_str());
    s.append("\" colCnt=\"");
    let cc_digits = decimal_string(col_count as u64);
    s.append(cc_digits.as_str());
    s.append("\" cellSpacing=\"0\" borderFillIDRef=\"3\" noAdjust=\"0\">");
    s.append("<hp:sz width=\"41954\" widthRelTo=\"ABSOLUTE\" height=\"");
    let h_digits = decimal_string(height as u64);
    s.append(h_digits.as_str());
    s.append("\" heightRelTo=\"ABSOLUTE\" protect=\"0\"/>");
    s.append("<hp:pos treatAsChar=\"1\" affectLSpacing=\"0\" flowWithText=\"1\" allowOverlap=\"0\" holdAnchorAndSO=\"0\" vertRelTo=\"PARA\" horzRelTo=\"COLUMN\" vertAlign=\"TOP\" horzAlign=\"LEFT\" vertOffset=\"0\" horzOffset=\"0\"/>");
    s.append("<hp:outMargin left=\"283\" right=\"283\" top=\"283\" bottom=\"283\"/>");
    s.append("<hp:inMargin left=\"510\" right=\"510\" top=\"141\" bottom=\"141\"/>");
    assert(height == table_height(tv.rows.len())) by (nonlinear_arith)
        requires
            rc_mod == (row_count as int) % 4294967296int,
            height_wide == (rc_mod as int * 1282) % 4294967296int,
            height == height_wide,
            row_count == tv.rows.len(),
    {
    }
    let ghost head = s@;
    let ghost rows = tv.rows;
    let ghost widths = tv.widths;
    let mut r: usize = 0;
    while r < table.rows.len()
        invariant
            r <= table.rows.len(),
            tv == table@,
            rows == tv.rows,
            widths == tv.widths,
            rows == string_rows_view(table.rows@),
            widths == table.col_widths@,
            forall|m: int| 0 <= m < table.rows@.len() ==> #[trigger] table.rows@[m]@.len() == table.col_widths@.len(),
            s@ == head + spec_rows_xml(rows.take(r as int), widths),
        decreases table.rows.len() - r,
    {
        assert(rows.take(r + 1).drop_last() == rows.take(r as int));
        assert(rows.take(r + 1).last() == strings_view(table.rows@[r as int]@));
        s.append("<hp:tr>");
        let ghost mid = s@;
        let ghost cells = strings_view(table.rows@[r as int]@);
        let mut c: usize = 0;
        while c < table.rows[r].len()
            invariant
                c <= table.rows@[r as int]@.len(),
                r < table.rows@.len(),
                cells == strings_view(table.rows@[r as int]@),
                widths == table.col_widths@,
                table.rows@[r as int]@.len() == table.col_widths@.len(),
                s@ == mid + spec_row_cells_xml(cells.take(c as int), r as nat, widths),
            decreases table.rows@[r as int]@.len() - c,
        {
            assert(cells.take(c + 1).drop_last() == cells.take(c as int));
            assert(cells.take(c + 1).last() == table.rows@[r as int]@[c as int]@);
            let cell = render_table_cell(table.rows[r][c].as_str(), r, c, table.col_widths[c]);
            s.append(cell.as_str());
            c += 1;
        }
        assert(cells.take(cells.len() as int) == cells);
        s.append("</hp:tr>");
        r += 1;
    }
    assert(rows.take(rows.len() as int) == rows);
    s.append("</hp:tbl>");
    s
}

/// A row's cells, each in angle brackets, run together.
pub open spec fn spec_bracketed(cells: Seq<Seq<char>>) -> Seq<char>
    decreases cells.len(),
{
    if cells.len() == 0 {
        seq![]
    } else {
        spec_bracketed(cells.drop_last()) + seq!['<'] + cells.last() + seq!['>']
    }
}

/// One line of preview text per table row.
pub open spec fn spec_row_paragraphs(rows: Seq<Seq<Seq<char>>>) -> Seq<Seq<char>> {
    rows.map_values(|r: Seq<Seq<char>>| spec_bracketed(r))
}

impl TableSpec {
    /// The number of rows.
    pub fn row_count(&self) -> (n: usize)
        ensures
            n == self@.rows.len(),
    {
        self.rows.len()
    }

    /// One line of text per row: each cell in angle brackets, run together.
    pub fn row_paragraphs(&self) -> (v: Vec<String>)
        ensures
            strings_view(v@) == spec_row_paragraphs(self@.rows),
    {
        let ghost rows = self@.rows;
        let mut v: Vec<String> = Vec::new();
        let mut r: usize = 0;
        while r < self.rows.len()
            invariant
                r <= self.rows@.len(),
                rows == self@.rows,
                rows == string_rows_view(self.rows@),
                strings_view(v@) == spec_row_paragraphs(rows.take(r as int)),
            decreases self.rows@.len() - r,
        {
            let ghost cells = strings_view(self.rows@[r as int]@);
            let mut line = String::new();
            let mut c: usize = 0;
            while c < self.rows[r].len()
                invariant
                    c <= self.rows@[r as int]@.len(),
                    r < self.rows@.len(),
                    cells == strings_view(self.rows@[r as int]@),
                    line@ == spec_bracketed(cells.take(c as int)),
                decreases self.rows@[r as int]@.len() - c,
            {
                assert(cells.take(c + 1).drop_last() == cells.take(c as int));
                assert(cells.take(c + 1).last() == self.rows@[r as int]@[c as int]@);
                let ghost prev = line@;
                push_char(&mut line, '<');
                line.append(self.rows[r][c].as_str());
                push_char(&mut line, '>');
                assert(line@ =~= prev + seq!['<'] + self.rows@[r as int]@[c as int]@ + seq!['>']);
                c += 1;
            }
            assert(cells.take(cells.len() as int) == cells);
            assert(rows[r as int] == cells);
            let ghost old_v = v@;
            v.push(line);
            assert(strings_view(v@) =~= strings_view(old_v).push(spec_bracketed(cells)));
            assert(spec_row_paragraphs(rows.take(r + 1)) =~= spec_row_paragraphs(rows.take(r as int)).push(spec_bracketed(cells)));
            r += 1;
        }
        assert(rows.take(rows.len() as int) == rows);
        v
    }
}

} // verus!
