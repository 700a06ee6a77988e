//! Collecting the paragraphs and tables of an HWPX section from the document's blocks.
use vstd::prelude::*;
use crate::error::{CoreRsError, ErrorKind, ErrorV, err};
use crate::generators::hwpx::items::{
    OrderedListShape, ParagraphStyle, SectionItem, SectionItemV, TABLE_ID_SEED, TableSpec, build_table_spec,
    flatten_block_to_paragraphs, heading_style, items_seq_view, normal_style, ordered_list_style,
    plain_items, plain_paragraph_item, spec_build_table, spec_flatten_block, spec_heading_style,
    spec_normal_style, spec_ordered_list_style, spec_unordered_list_style, strings_view,
    unordered_list_style,
};
use crate::generators::hwpx::runs::{NORMAL_CHAR_PR, RunV, render_runs, runs_view, spec_render_runs};
use crate::models::block::{Block, BlockV, ListBlock, ListBlockV, blocks_view, items_view, list_view, table_view};
use crate::utils::text::owned;

verus! {

broadcast use crate::models::block::group_view_lemmas;

pub open spec fn ordered_unsupported() -> ErrorV {
    err(ErrorKind::UnsupportedFeature, "HWPX approved baseline does not support ordered list"@)
}

pub open spec fn unordered_too_deep() -> ErrorV {
    err(ErrorKind::UnsupportedFeature, "HWPX approved baseline supports nested unordered lists up to depth 2"@)
}

/// The name of a block kind in messages.
pub open spec fn spec_block_name(b: BlockV) -> Seq<char> {
    match b {
        BlockV::Paragraph(_) => "paragraph"@,
        BlockV::Heading { .. } => "heading"@,
        BlockV::BlockQuote(_) => "blockquote"@,
        BlockV::CodeBlock { .. } => "code block"@,
        BlockV::List(_) => "list"@,
        BlockV::Table(_) => "table"@,
        BlockV::ThematicBreak => "thematic break"@,
    }
}

pub fn unsupported_name(block: &Block) -> (s: &'static str)
    ensures
        s@ == spec_block_name(block@),
{
    match block {
        Block::Paragraph(_) => "paragraph",
        Block::Heading { .. } => "heading",
        Block::BlockQuote(_) => "blockquote",
        Block::CodeBlock { .. } => "code block",
        Block::List(_) => "list",
        Block::Table(_) => "table",
        Block::ThematicBreak => "thematic break",
    }
}

/// A paragraph of runs with a style.
pub open spec fn styled_paragraph(style: ParagraphStyle, runs: Result<Seq<RunV>, ErrorV>) -> Result<Seq<SectionItemV>, ErrorV> {
    match runs {
        Err(e) => Err(e),
        Ok(r) => Ok(seq![SectionItemV::Paragraph(style, r)]),
    }
}

pub open spec fn plain_of(b: BlockV) -> Result<Seq<SectionItemV>, ErrorV> {
    Ok(plain_items(spec_flatten_block(b)))
}

pub open spec fn concat_results(a: Result<Seq<SectionItemV>, ErrorV>, b: Result<Seq<SectionItemV>, ErrorV>) -> Result<Seq<SectionItemV>, ErrorV> {
    match a {
        Err(e) => Err(e),
        Ok(x) => match b {
            Err(e) => Err(e),
            Ok(y) => Ok(x + y),
        },
    }
}

/// The paragraphs of an unordered list at a depth: lists nest up to depth two;
/// deeper lists, ordered lists inside, and other blocks are refused in strict mode
/// and become plain paragraphs otherwise.
pub open spec fn spec_unordered(l: ListBlockV, strict: bool, depth: nat) -> Result<Seq<SectionItemV>, ErrorV>
    decreases l, 2int,
{
    if depth > 2 {
        if strict { Err(unordered_too_deep()) } else { plain_of(BlockV::List(l)) }
    } else {
        spec_unordered_items(l.items, strict, depth)
    }
}

pub open spec fn spec_unordered_items(items: Seq<Seq<BlockV>>, strict: bool, depth: nat) -> Result<Seq<SectionItemV>, ErrorV>
    decreases items, 1int,
{
    if items.len() == 0 {
        Ok(seq![])
    } else {
        concat_results(spec_unordered_items(items.drop_last(), strict, depth), spec_unordered_blocks(items.last(), strict, depth))
    }
}

pub open spec fn spec_unordered_blocks(bs: Seq<BlockV>, strict: bool, depth: nat) -> Result<Seq<SectionItemV>, ErrorV>
    decreases bs, 1int,
{
    if bs.len() == 0 {
        Ok(seq![])
    } else {
        concat_results(spec_unordered_blocks(bs.drop_last(), strict, depth), spec_unordered_block(bs.last(), strict, depth))
    }
}

pub open spec fn spec_unordered_block(b: BlockV, strict: bool, depth: nat) -> Result<Seq<SectionItemV>, ErrorV>
    decreases b, 0int,
{
    let style = spec_unordered_list_style(depth);
    match b {
        BlockV::Paragraph(c) => styled_paragraph(style, spec_render_runs(c, style.default_char_pr, strict)),
        BlockV::Heading { content, .. } => styled_paragraph(style, spec_render_runs(content, style.default_char_pr, strict)),
        BlockV::List(child) => if !child.ordered {
            spec_unordered(child, strict, depth + 1)
        } else if strict {
            Err(ordered_unsupported())
        } else {
            plain_of(b)
        },
        _ => if strict {
            Err(err(
                ErrorKind::UnsupportedFeature,
                "HWPX approved baseline does not support "@ + spec_block_name(b) + " inside unordered list"@,
            ))
        } else {
            plain_of(b)
        },
    }
}

/// The paragraphs of an ordered list at a depth: ordered lists nest up to depth two;
/// anything else inside becomes plain paragraphs.
pub open spec fn spec_ordered(l: ListBlockV, strict: bool, depth: nat, shape: OrderedListShape) -> Result<Seq<SectionItemV>, ErrorV>
    decreases l, 2int,
{
    if depth > 2 {
        plain_of(BlockV::List(l))
    } else {
        spec_ordered_items(l.items, strict, depth, shape)
    }
}

pub open spec fn spec_ordered_items(items: Seq<Seq<BlockV>>, strict: bool, depth: nat, shape: OrderedListShape) -> Result<Seq<SectionItemV>, ErrorV>
    decreases items, 1int,
{
    if items.len() == 0 {
        Ok(seq![])
    } else {
        concat_results(spec_ordered_items(items.drop_last(), strict, depth, shape), spec_ordered_blocks(items.last(), strict, depth, shape))
    }
}

pub open spec fn spec_ordered_blocks(bs: Seq<BlockV>, strict: bool, depth: nat, shape: OrderedListShape) -> Result<Seq<SectionItemV>, ErrorV>
    decreases bs, 1int,
{
    if bs.len() == 0 {
        Ok(seq![])
    } else {
        concat_results(spec_ordered_blocks(bs.drop_last(), strict, depth, shape), spec_ordered_block(bs.last(), strict, depth, shape))
    }
}

pub open spec fn spec_ordered_block(b: BlockV, strict: bool, depth: nat, shape: OrderedListShape) -> Result<Seq<SectionItemV>, ErrorV>
    decreases b, 0int,
{
    let style = spec_ordered_list_style(shape, depth);
    match b {
        BlockV::Paragraph(c) => styled_paragraph(style, spec_render_runs(c, style.default_char_pr, strict)),
        BlockV::Heading { content, .. } => styled_paragraph(style, spec_render_runs(content, style.default_char_pr, strict)),
        BlockV::List(child) => if child.ordered { spec_ordered(child, strict, depth + 1, shape) } else { plain_of(b) },
        _ => plain_of(b),
    }
}

/// The next table id, wrapping as `u64` arithmetic does.
pub open spec fn next_id(id: u64) -> u64 {
    if id == u64::MAX { 0 } else { (id + 1) as u64 }
}

/// The items of one top-level block; `id` is the id a table gets.
pub open spec fn spec_top_block(b: BlockV, strict: bool, shape: Option<OrderedListShape>, id: u64) -> Result<Seq<SectionItemV>, ErrorV> {
    match b {
        BlockV::Paragraph(c) => styled_paragraph(spec_normal_style(), spec_render_runs(c, NORMAL_CHAR_PR, strict)),
        BlockV::Heading { level, content } => styled_paragraph(
            spec_heading_style(level),
            spec_render_runs(content, spec_heading_style(level).default_char_pr, strict),
        ),
        BlockV::List(l) => if l.ordered {
            if strict {
                Err(ordered_unsupported())
            } else {
                match shape {
                    Some(s) => spec_ordered(l, strict, 1, s),
                    None => plain_of(b),
                }
            }
        } else {
            spec_unordered(l, strict, 1)
        },
        BlockV::Table(t) => match spec_build_table(t, strict, id) {
            Err(e) => Err(e),
            Ok(tv) => Ok(seq![SectionItemV::Table(tv)]),
        },
        _ => if strict {
            Err(err(ErrorKind::UnsupportedFeature, "HWPX core does not support "@ + spec_block_name(b)))
        } else {
            plain_of(b)
        },
    }
}

/// The items of the top-level blocks, and the id for the next table.
pub open spec fn spec_collect(bs: Seq<BlockV>, strict: bool, shape: Option<OrderedListShape>) -> Result<(Seq<SectionItemV>, u64), ErrorV>
    decreases bs.len(),
{
    if bs.len() == 0 {
        Ok((seq![], TABLE_ID_SEED))
    } else {
        match spec_collect(bs.drop_last(), strict, shape) {
            Err(e) => Err(e),
            Ok((items, id)) => match spec_top_block(bs.last(), strict, shape, id) {
                Err(e) => Err(e),
                Ok(more) => Ok((items + more, if bs.last() is Table { next_id(id) } else { id })),
            },
        }
    }
}

/// The section items of the document.
pub open spec fn spec_section_items(bs: Seq<BlockV>, strict: bool, shape: Option<OrderedListShape>) -> Result<Seq<SectionItemV>, ErrorV> {
    match spec_collect(bs, strict, shape) {
        Err(e) => Err(e),
        Ok((items, _)) => Ok(items),
    }
}

/// What appending produced items to a list of items gives.
pub open spec fn appended(r: Result<(), CoreRsError>, before: Seq<SectionItemV>, after: Seq<SectionItemV>, o: Result<Seq<SectionItemV>, ErrorV>) -> bool {
    match o {
        Ok(x) => r is Ok && after == before + x,
        Err(e) => r matches Err(er) && er@ == e,
    }
}

fn push_plain(block: &Block, items: &mut Vec<SectionItem>)
    ensures
        items_seq_view(final(items)@) == items_seq_view(old(items)@) + plain_items(spec_flatten_block(block@)),
{
    let paras = flatten_block_to_paragraphs(block);
    let ghost pv = strings_view(paras@);
    let ghost start = items_seq_view(items@);
    let mut k: usize = 0;
    while k < paras.len()
        invariant
            k <= paras.len(),
            pv == strings_view(paras@),
            items_seq_view(items@) == start + plain_items(pv.take(k as int)),
        decreases paras.len() - k,
    {
        let ghost prev = items_seq_view(items@);
        let item = plain_paragraph_item(paras[k].clone());
        let ghost iv = item@;
        items.push(item);
        assert(items_seq_view(items@) =~= prev.push(iv));
        assert(plain_items(pv.take(k + 1)) =~= plain_items(pv.take(k as int)).push(iv));
        k += 1;
    }
    assert(pv.take(pv.len() as int) == pv);
}

fn push_styled(style: ParagraphStyle, inlines: &Vec<crate::models::inline::Inline>, strict_mode: bool, items: &mut Vec<SectionItem>) -> (r: Result<(), CoreRsError>)
    ensures
        appended(r, items_seq_view(old(items)@), items_seq_view(final(items)@), styled_paragraph(
            style,
            spec_render_runs(crate::models::inline::inlines_view(inlines@), style.default_char_pr, strict_mode),
        )),
{
    let runs = render_runs(inlines, style.default_char_pr, strict_mode)?;
    let ghost prev = items_seq_view(items@);
    let item = SectionItem::Paragraph(style, runs);
    let ghost iv = item@;
    items.push(item);
    assert(items_seq_view(items@) =~= prev + seq![iv]);
    Ok(())
}

proof fn lemma_unordered_items_err(items: Seq<Seq<BlockV>>, strict: bool, depth: nat, k: int)
    requires
        0 <= k <= items.len(),
        spec_unordered_items(items.take(k), strict, depth) is Err,
    ensures
        spec_unordered_items(items, strict, depth) == spec_unordered_items(items.take(k), strict, depth),
    decreases items.len(),
{
    if items.len() == k {
        assert(items.take(k) == items);
    } else {
        assert(items.drop_last().take(k) == items.take(k));
        lemma_unordered_items_err(items.drop_last(), strict, depth, k);
    }
}

proof fn lemma_unordered_blocks_err(bs: Seq<BlockV>, strict: bool, depth: nat, k: int)
    requires
        0 <= k <= bs.len(),
        spec_unordered_blocks(bs.take(k), strict, depth) is Err,
    ensures
        spec_unordered_blocks(bs, strict, depth) == spec_unordered_blocks(bs.take(k), strict, depth),
    decreases bs.len(),
{
    if bs.len() == k {
        assert(bs.take(k) == bs);
    } else {
        assert(bs.drop_last().take(k) == bs.take(k));
        lemma_unordered_blocks_err(bs.drop_last(), strict, depth, k);
    }
}

proof fn lemma_ordered_items_err(items: Seq<Seq<BlockV>>, strict: bool, depth: nat, shape: OrderedListShape, k: int)
    requires
        0 <= k <= items.len(),
        spec_ordered_items(items.take(k), strict, depth, shape) is Err,
    ensures
        spec_ordered_items(items, strict, depth, shape) == spec_ordered_items(items.take(k), strict, depth, shape),
    decreases items.len(),
{
    if items.len() == k {
        assert(items.take(k) == items);
    } else {
        assert(items.drop_last().take(k) == items.take(k));
        lemma_ordered_items_err(items.drop_last(), strict, depth, shape, k);
    }
}

proof fn lemma_ordered_blocks_err(bs: Seq<BlockV>, strict: bool, depth: nat, shape: OrderedListShape, k: int)
    requires
        0 <= k <= bs.len(),
        spec_ordered_blocks(bs.take(k), strict, depth, shape) is Err,
    ensures
        spec_ordered_blocks(bs, strict, depth, shape) == spec_ordered_blocks(bs.take(k), strict, depth, shape),
    decreases bs.len(),
{
    if bs.len() == k {
        assert(bs.take(k) == bs);
    } else {
        assert(bs.drop_last().take(k) == bs.take(k));
        lemma_ordered_blocks_err(bs.drop_last(), strict, depth, shape, k);
    }
}

proof fn lemma_collect_err(bs: Seq<BlockV>, strict: bool, shape: Option<OrderedListShape>, k: int)
    requires
        0 <= k <= bs.len(),
        spec_collect(bs.take(k), strict, shape) is Err,
    ensures
        spec_collect(bs, strict, shape) == spec_collect(bs.take(k), strict, shape),
    decreases bs.len(),
{
    if bs.len() == k {
        assert(bs.take(k) == bs);
    } else {
        assert(bs.drop_last().take(k) == bs.take(k));
        lemma_collect_err(bs.drop_last(), strict, shape, k);
    }
}

fn push_plain_list(list: &ListBlock, items: &mut Vec<SectionItem>)
    ensures
        items_seq_view(final(items)@) == items_seq_view(old(items)@) + plain_items(spec_flatten_block(BlockV::List(list_view(*list)))),
{
    let paras = crate::generators::hwpx::items::flatten_list_items(list);
    let ghost pv = strings_view(paras@);
    let ghost start = items_seq_view(items@);
    let mut k: usize = 0;
    while k < paras.len()
        invariant
            k <= paras.len(),
            pv == strings_view(paras@),
            items_seq_view(items@) == start + plain_items(pv.take(k as int)),
        decreases paras.len() - k,
    {
        let ghost prev = items_seq_view(items@);
        let item = plain_paragraph_item(paras[k].clone());
        let ghost iv = item@;
        items.push(item);
        assert(items_seq_view(items@) =~= prev.push(iv));
        assert(plain_items(pv.take(k + 1)) =~= plain_items(pv.take(k as int)).push(iv));
        k += 1;
    }
    assert(pv.take(pv.len() as int) == pv);
}

/// Appends the paragraphs of an unordered list at a depth.
fn collect_unordered_list_items(list: &ListBlock, strict_mode: bool, depth: u8, items: &mut Vec<SectionItem>) -> (r: Result<(), CoreRsError>)
    requires
        1 <= depth <= 3,
    ensures
        appended(r, items_seq_view(old(items)@), items_seq_view(final(items)@), spec_unordered(list_view(*list), strict_mode, depth as nat)),
    decreases list, 2int,
{
    if depth > 2 {
        if strict_mode {
            return Err(CoreRsError::from_str_detail(ErrorKind::UnsupportedFeature, "HWPX approved baseline supports nested unordered lists up to depth 2"));
        }
        push_plain_list(list, items);
        return Ok(());
    }
    let ghost iv = items_view(list.items@);
    let ghost start = items_seq_view(items@);
    let mut k: usize = 0;
    while k < list.items.len()
        invariant
            k <= list.items.len(),
            1 <= depth <= 2,
            iv == items_view(list.items@),
            start == items_seq_view(old(items)@),
            spec_unordered_items(iv.take(k as int), strict_mode, depth as nat) matches Ok(x) && items_seq_view(items@) == start + x,
        decreases list.items.len() - k,
    {
        assert(iv.take(k + 1).drop_last() == iv.take(k as int));
        assert(iv.take(k + 1).last() == blocks_view(list.items@[k as int].blocks@));
        proof {
            assert(decreases_to!(list => list.items));
            assert(decreases_to!(list.items => list.items@));
            assert(decreases_to!(list.items@ => list.items@[k as int]));
            assert(decreases_to!(list.items@[k as int] => list.items@[k as int].blocks));
        }
        let ghost before = items_seq_view(items@);
        let r = collect_unordered_blocks(&list.items[k].blocks, strict_mode, depth, items);
        match r {
            Ok(()) => {
                assert(items_seq_view(items@) =~= start + spec_unordered_items(iv.take(k + 1), strict_mode, depth as nat)->Ok_0);
            },
            Err(e) => {
                assert(spec_unordered_items(iv.take(k + 1), strict_mode, depth as nat) == Err::<Seq<SectionItemV>, ErrorV>(e@));
                proof { lemma_unordered_items_err(iv, strict_mode, depth as nat, k + 1); }
                return Err(e);
            },
        }
        k += 1;
    }
    assert(iv.take(iv.len() as int) == iv);
    Ok(())
}

fn collect_unordered_blocks(blocks: &Vec<Block>, strict_mode: bool, depth: u8, items: &mut Vec<SectionItem>) -> (r: Result<(), CoreRsError>)
    requires
        1 <= depth <= 2,
    ensures
        appended(r, items_seq_view(old(items)@), items_seq_view(final(items)@), spec_unordered_blocks(blocks_view(blocks@), strict_mode, depth as nat)),
    decreases blocks, 1int,
{
    let ghost bv = blocks_view(blocks@);
    let ghost start = items_seq_view(items@);
    let mut j: usize = 0;
    while j < blocks.len()
        invariant
            j <= blocks.len(),
            1 <= depth <= 2,
            bv == blocks_view(blocks@),
            start == items_seq_view(old(items)@),
            spec_unordered_blocks(bv.take(j as int), strict_mode, depth as nat) matches Ok(x) && items_seq_view(items@) == start + x,
        decreases blocks.len() - j,
    {
        assert(bv.take(j + 1).drop_last() == bv.take(j as int));
        assert(bv.take(j + 1).last() == blocks@[j as int]@);
        proof {
            assert(decreases_to!(blocks => blocks@));
            assert(decreases_to!(blocks@ => blocks@[j as int]));
        }
        match collect_unordered_block(&blocks[j], strict_mode, depth, items) {
            Ok(()) => {
                assert(items_seq_view(items@) =~= start + spec_unordered_blocks(bv.take(j + 1), strict_mode, depth as nat)->Ok_0);
            },
            Err(e) => {
                assert(spec_unordered_blocks(bv.take(j + 1), strict_mode, depth as nat) == Err::<Seq<SectionItemV>, ErrorV>(e@));
                proof { lemma_unordered_blocks_err(bv, strict_mode, depth as nat, j + 1); }
                return Err(e);
            },
        }
        j += 1;
    }
    assert(bv.take(bv.len() as int) == bv);
    Ok(())
}

fn collect_unordered_block(block: &Block, strict_mode: bool, depth: u8, items: &mut Vec<SectionItem>) -> (r: Result<(), CoreRsError>)
    requires
        1 <= depth <= 2,
    ensures
        appended(r, items_seq_view(old(items)@), items_seq_view(final(items)@), spec_unordered_block(block@, strict_mode, depth as nat)),
    decreases block, 0int,
{
    let style = unordered_list_style(depth);
    match block {
        Block::Paragraph(inlines) => push_styled(style, inlines, strict_mode, items),
        Block::Heading { content, .. } => push_styled(style, content, strict_mode, items),
        Block::List(child) => {
            if !child.ordered {
                collect_unordered_list_items(child, strict_mode, depth + 1, items)
            } else if strict_mode {
                Err(CoreRsError::from_str_detail(ErrorKind::UnsupportedFeature, "HWPX approved baseline does not support ordered list"))
            } else {
                push_plain(block, items);
                Ok(())
            }
        },
        _ => {
            if strict_mode {
                let mut m = owned("HWPX approved baseline does not support ");
                m.append(unsupported_name(block));
                m.append(" inside unordered list");
                return Err(CoreRsError::new(ErrorKind::UnsupportedFeature, m));
            }
            push_plain(block, items);
            Ok(())
        },
    }
}

/// Appends the paragraphs of an ordered list at a depth.
fn collect_ordered_list_items(list: &ListBlock, strict_mode: bool, depth: u8, shape: OrderedListShape, items: &mut Vec<SectionItem>) -> (r: Result<(), CoreRsError>)
    requires
        1 <= depth <= 3,
    ensures
        appended(r, items_seq_view(old(items)@), items_seq_view(final(items)@), spec_ordered(list_view(*list), strict_mode, depth as nat, shape)),
    decreases list, 2int,
{
    if depth > 2 {
        push_plain_list(list, items);
        return Ok(());
    }
    let ghost iv = items_view(list.items@);
    let ghost start = items_seq_view(items@);
    let mut k: usize = 0;
    while k < list.items.len()
        invariant
            k <= list.items.len(),
            1 <= depth <= 2,
            iv == items_view(list.items@),
            start == items_seq_view(old(items)@),
            spec_ordered_items(iv.take(k as int), strict_mode, depth as nat, shape) matches Ok(x) && items_seq_view(items@) == start + x,
        decreases list.items.len() - k,
    {
        assert(iv.take(k + 1).drop_last() == iv.take(k as int));
        assert(iv.take(k + 1).last() == blocks_view(list.items@[k as int].blocks@));
        proof {
            assert(decreases_to!(list => list.items));
            assert(decreases_to!(list.items => list.items@));
            assert(decreases_to!(list.items@ => list.items@[k as int]));
            assert(decreases_to!(list.items@[k as int] => list.items@[k as int].blocks));
        }
        match collect_ordered_blocks(&list.items[k].blocks, strict_mode, depth, shape, items) {
            Ok(()) => {
                assert(items_seq_view(items@) =~= start + spec_ordered_items(iv.take(k + 1), strict_mode, depth as nat, shape)->Ok_0);
            },
            Err(e) => {
                assert(spec_ordered_items(iv.take(k + 1), strict_mode, depth as nat, shape) == Err::<Seq<SectionItemV>, ErrorV>(e@));
                proof { lemma_ordered_items_err(iv, strict_mode, depth as nat, shape, k + 1); }
                return Err(e);
            },
        }
        k += 1;
    }
    assert(iv.take(iv.len() as int) == iv);
    Ok(())
}

fn collect_ordered_blocks(blocks: &Vec<Block>, strict_mode: bool, depth: u8, shape: OrderedListShape, items: &mut Vec<SectionItem>) -> (r: Result<(), CoreRsError>)
    requires
        1 <= depth <= 2,
    ensures
        appended(r, items_seq_view(old(items)@), items_seq_view(final(items)@), spec_ordered_blocks(blocks_view(blocks@), strict_mode, depth as nat, shape)),
    decreases blocks, 1int,
{
    let ghost bv = blocks_view(blocks@);
    let ghost start = items_seq_view(items@);
    let mut j: usize = 0;
    while j < blocks.len()
        invariant
            j <= blocks.len(),
            1 <= depth <= 2,
            bv == blocks_view(blocks@),
            start == items_seq_view(old(items)@),
            spec_ordered_blocks(bv.take(j as int), strict_mode, depth as nat, shape) matches Ok(x) && items_seq_view(items@) == start + x,
        decreases blocks.len() - j,
    {
        assert(bv.take(j + 1).drop_last() == bv.take(j as int));
        assert(bv.take(j + 1).last() == blocks@[j as int]@);
        proof {
            assert(decreases_to!(blocks => blocks@));
            assert(decreases_to!(blocks@ => blocks@[j as int]));
        }
        match collect_ordered_block(&blocks[j], strict_mode, depth, shape, items) {
            Ok(()) => {
                assert(items_seq_view(items@) =~= start + spec_ordered_blocks(bv.take(j + 1), strict_mode, depth as nat, shape)->Ok_0);
            },
            Err(e) => {
                assert(spec_ordered_blocks(bv.take(j + 1), strict_mode, depth as nat, shape) == Err::<Seq<SectionItemV>, ErrorV>(e@));
                proof { lemma_ordered_blocks_err(bv, strict_mode, depth as nat, shape, j + 1); }
                return Err(e);
            },
        }
        j += 1;
    }
    assert(bv.take(bv.len() as int) == bv);
    Ok(())
}

fn collect_ordered_block(block: &Block, strict_mode: bool, depth: u8, shape: OrderedListShape, items: &mut Vec<SectionItem>) -> (r: Result<(), CoreRsError>)
    requires
        1 <= depth <= 2,
    ensures
        appended(r, items_seq_view(old(items)@), items_seq_view(final(items)@), spec_ordered_block(block@, strict_mode, depth as nat, shape)),
    decreases block, 0int,
{
    let style = ordered_list_style(shape, depth);
    match block {
        Block::Paragraph(inlines) => push_styled(style, inlines, strict_mode, items),
        Block::Heading { content, .. } => push_styled(style, content, strict_mode, items),
        Block::List(child) => {
            if child.ordered {
                collect_ordered_list_items(child, strict_mode, depth + 1, shape, items)
            } else {
                push_plain(block, items);
                Ok(())
            }
        },
        _ => {
            push_plain(block, items);
            Ok(())
        },
    }
}

/// Appends the items of one top-level block.
fn collect_top_block(block: &Block, strict_mode: bool, shape: Option<OrderedListShape>, id: u64, items: &mut Vec<SectionItem>) -> (r: Result<(), CoreRsError>)
    ensures
        appended(r, items_seq_view(old(items)@), items_seq_view(final(items)@), spec_top_block(block@, strict_mode, shape, id)),
{
    match block {
        Block::Paragraph(inlines) => push_styled(normal_style(), inlines, strict_mode, items),
        Block::Heading { level, content } => push_styled(heading_style(*level), content, strict_mode, items),
        Block::List(list) => {
            if list.ordered {
                if strict_mode {
                    return Err(CoreRsError::from_str_detail(ErrorKind::UnsupportedFeature, "HWPX approved baseline does not support ordered list"));
                }
                match shape {
                    Some(s) => collect_ordered_list_items(list, strict_mode, 1, s, items),
                    None => {
                        push_plain(block, items);
                        Ok(())
                    },
                }
            } else {
                collect_unordered_list_items(list, strict_mode, 1, items)
            }
        },
        Block::Table(table) => {
            let spec = build_table_spec(table, strict_mode, id)?;
            let ghost prev = items_seq_view(items@);
            let item = SectionItem::Table(spec);
            let ghost iv = item@;
            items.push(item);
            assert(items_seq_view(items@) =~= prev + seq![iv]);
            Ok(())
        },
        _ => {
            if strict_mode {
                let mut m = owned("HWPX core does not support ");
                m.append(unsupported_name(block));
                return Err(CoreRsError::new(ErrorKind::UnsupportedFeature, m));
            }
            push_plain(block, items);
            Ok(())
        },
    }
}

/// The section items of the document's blocks.
pub fn collect_section_items(blocks: &Vec<Block>, strict_mode: bool, shape: Option<OrderedListShape>) -> (r: Result<Vec<SectionItem>, CoreRsError>)
    ensures
        match spec_section_items(blocks_view(blocks@), strict_mode, shape) {
            Ok(x) => r matches Ok(v) && items_seq_view(v@) == x,
            Err(e) => r matches Err(er) && er@ == e,
        },
{
    let ghost bv = blocks_view(blocks@);
    let mut items: Vec<SectionItem> = Vec::new();
    let mut next_table_id: u64 = TABLE_ID_SEED;
    let mut i: usize = 0;
    assert(items_seq_view(items@) =~= seq![]);
    while i < blocks.len()
        invariant
            i <= blocks.len(),
            bv == blocks_view(blocks@),
            spec_collect(bv.take(i as int), strict_mode, shape) == Ok::<(Seq<SectionItemV>, u64), ErrorV>((items_seq_view(items@), next_table_id)),
        decreases blocks.len() - i,
    {
        assert(bv.take(i + 1).drop_last() == bv.take(i as int));
        assert(bv.take(i + 1).last() == blocks@[i as int]@);
        let is_table = match &blocks[i] {
            Block::Table(_) => true,
            _ => false,
        };
        match collect_top_block(&blocks[i], strict_mode, shape, next_table_id, &mut items) {
            Ok(()) => {},
            Err(e) => {
                assert(spec_collect(bv.take(i + 1), strict_mode, shape) == Err::<(Seq<SectionItemV>, u64), ErrorV>(e@));
                proof { lemma_collect_err(bv, strict_mode, shape, i + 1); }
                assert(bv.take(bv.len() as int) == bv);
                return Err(e);
            },
        }
        if is_table {
            next_table_id = if next_table_id == u64::MAX { 0 } else { next_table_id + 1 };
        }
        i += 1;
    }
    assert(bv.take(bv.len() as int) == bv);
    Ok(items)
}

} // verus!
