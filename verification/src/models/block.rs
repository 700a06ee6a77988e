//! Block structure of a document.
use vstd::prelude::*;
use crate::models::inline::{Inline, InlineV, inlines_view, opt_str_view};

verus! {

#[derive(Debug, PartialEq, Eq)]
pub enum Block {
    Paragraph(Vec<Inline>),
    Heading { level: u8, content: Vec<Inline> },
    BlockQuote(Vec<Block>),
    CodeBlock { language: Option<String>, code: String },
    List(ListBlock),
    Table(TableBlock),
    ThematicBreak,
}

#[derive(Debug, PartialEq, Eq)]
pub struct ListBlock {
    pub ordered: bool,
    pub start_index: u64,
    pub items: Vec<ListItem>,
}

#[derive(Debug, PartialEq, Eq)]
pub struct ListItem {
    pub blocks: Vec<Block>,
}

#[derive(Debug, PartialEq, Eq)]
pub struct TableBlock {
    pub aligns: Vec<TableAlignment>,
    pub headers: Vec<Vec<Inline>>,
    pub rows: Vec<TableRow>,
}

#[derive(Debug, PartialEq, Eq)]
pub struct TableRow {
    pub cells: Vec<Vec<Inline>>,
}

#[derive(Debug, Clone, Copy, PartialEq, Eq)]
pub enum TableAlignment {
    Unaligned,
    Left,
    Center,
    Right,
}

pub enum BlockV {
    Paragraph(Seq<InlineV>),
    Heading { level: u8, content: Seq<InlineV> },
    BlockQuote(Seq<BlockV>),
    CodeBlock { language: Option<Seq<char>>, code: Seq<char> },
    List(ListBlockV),
    Table(TableBlockV),
    ThematicBreak,
}

pub struct ListBlockV {
    pub ordered: bool,
    pub start_index: u64,
    pub items: Seq<Seq<BlockV>>,
}

pub struct TableBlockV {
    pub aligns: Seq<TableAlignment>,
    pub headers: Seq<Seq<InlineV>>,
    pub rows: Seq<Seq<Seq<InlineV>>>,
}

/// View of a sequence of table cells.
pub open spec fn cells_view(cells: Seq<Vec<Inline>>) -> Seq<Seq<InlineV>> {
    Seq::new(cells.len(), |k: int| inlines_view(cells[k]@))
}

/// View of the rows of a table.
pub open spec fn rows_view(rows: Seq<TableRow>) -> Seq<Seq<Seq<InlineV>>> {
    Seq::new(rows.len(), |k: int| cells_view(rows[k].cells@))
}

pub open spec fn list_view(l: ListBlock) -> ListBlockV {
    ListBlockV { ordered: l.ordered, start_index: l.start_index, items: items_view(l.items@) }
}

pub open spec fn table_view(t: TableBlock) -> TableBlockV {
    TableBlockV { aligns: t.aligns@, headers: cells_view(t.headers@), rows: rows_view(t.rows@) }
}

pub open spec fn block_view(b: Block) -> BlockV
    decreases b, 2int,
{
    match b {
        Block::Paragraph(v) => BlockV::Paragraph(inlines_view(v@)),
        Block::Heading { level, content } => BlockV::Heading { level, content: inlines_view(content@) },
        Block::BlockQuote(v) => BlockV::BlockQuote(blocks_view(v@)),
        Block::CodeBlock { language, code } => BlockV::CodeBlock {
            language: opt_str_view(language),
            code: code@,
        },
        Block::List(l) => BlockV::List(
            ListBlockV { ordered: l.ordered, start_index: l.start_index, items: items_view(l.items@) },
        ),
        Block::Table(t) => BlockV::Table(table_view(t)),
        Block::ThematicBreak => BlockV::ThematicBreak,
    }
}

pub open spec fn blocks_view(s: Seq<Block>) -> Seq<BlockV>
    decreases s, 0int,
{
    if s.len() == 0 {
        Seq::empty()
    } else {
        blocks_view(s.drop_last()).push(block_view(s.last()))
    }
}

pub open spec fn items_view(s: Seq<ListItem>) -> Seq<Seq<BlockV>>
    decreases s, 1int,
{
    if s.len() == 0 {
        Seq::empty()
    } else {
        items_view(s.drop_last()).push(blocks_view(s.last().blocks@))
    }
}

proof fn lemma_blocks_view_all(s: Seq<Block>)
    ensures
        blocks_view(s).len() == s.len(),
        forall|k: int| 0 <= k < s.len() ==> #[trigger] blocks_view(s)[k] == block_view(s[k]),
    decreases s.len(),
{
    if s.len() > 0 {
        lemma_blocks_view_all(s.drop_last());
    }
}

proof fn lemma_items_view_all(s: Seq<ListItem>)
    ensures
        items_view(s).len() == s.len(),
        forall|k: int| 0 <= k < s.len() ==> #[trigger] items_view(s)[k] == blocks_view(s[k].blocks@),
    decreases s.len(),
{
    if s.len() > 0 {
        lemma_items_view_all(s.drop_last());
    }
}

/// Length of a block sequence view.
pub broadcast proof fn lemma_blocks_view_len(s: Seq<Block>)
    ensures
        #[trigger] blocks_view(s).len() == s.len(),
{
    lemma_blocks_view_all(s);
}

/// Indexing into a block sequence view.
pub broadcast proof fn lemma_blocks_view(s: Seq<Block>, k: int)
    requires
        0 <= k < s.len(),
    ensures
        #[trigger] blocks_view(s)[k] == block_view(s[k]),
{
    lemma_blocks_view_all(s);
}

/// Length of a list item sequence view.
pub broadcast proof fn lemma_items_view_len(s: Seq<ListItem>)
    ensures
        #[trigger] items_view(s).len() == s.len(),
{
    lemma_items_view_all(s);
}

/// Indexing into a list item sequence view.
pub broadcast proof fn lemma_items_view(s: Seq<ListItem>, k: int)
    requires
        0 <= k < s.len(),
    ensures
        #[trigger] items_view(s)[k] == blocks_view(s[k].blocks@),
{
    lemma_items_view_all(s);
}

/// Appending to a sequence of blocks appends to its view.
pub broadcast proof fn lemma_blocks_view_push(s: Seq<Block>, b: Block)
    ensures
        #[trigger] blocks_view(s.push(b)) == blocks_view(s).push(block_view(b)),
{
    assert(s.push(b).drop_last() == s);
}

/// Appending to a sequence of list items appends to its view.
pub broadcast proof fn lemma_items_view_push(s: Seq<ListItem>, i: ListItem)
    ensures
        #[trigger] items_view(s.push(i)) == items_view(s).push(blocks_view(i.blocks@)),
{
    assert(s.push(i).drop_last() == s);
}

pub broadcast group group_view_lemmas {
    crate::models::inline::lemma_inlines_view_push,
    lemma_blocks_view_push,
    lemma_items_view_push,
    crate::models::inline::lemma_inlines_view_len,
    crate::models::inline::lemma_inlines_view,
    lemma_blocks_view_len,
    lemma_blocks_view,
    lemma_items_view_len,
    lemma_items_view,
}

impl View for Block {
    type V = BlockV;

    open spec fn view(&self) -> BlockV {
        block_view(*self)
    }
}

} // verus!
