//! The parser's working state: open containers and open inline spans.
use vstd::prelude::*;
use crate::models::block::{
    Block, BlockV, ListBlock, ListBlockV, ListItem, TableAlignment, TableBlockV, TableRow,
    blocks_view, cells_view, items_view, rows_view,
};
use crate::models::inline::{Inline, InlineV, inline_view, inlines_view, opt_str_view};
use crate::parser::markdown::source::{MdTag, MdTagV, TagKind};
use crate::utils::text::{is_whitespace, spec_is_whitespace, spec_trim_end, spec_trim, trim, trim_end, push_char};

verus! {

broadcast use crate::models::block::group_view_lemmas;

/// A table under construction.
pub struct TableBuilder {
    pub aligns: Vec<TableAlignment>,
    pub headers: Vec<Vec<Inline>>,
    pub rows: Vec<TableRow>,
}

/// A block element that is open, with what it holds so far.
pub enum Container {
    Paragraph(Vec<Inline>),
    Heading { level: u8, content: Vec<Inline> },
    BlockQuote(Vec<Block>),
    CodeBlock { language: Option<String>, code: String },
    List(ListBlock),
    ListItem(ListItem),
    Table(TableBuilder),
    TableHead(Vec<Vec<Inline>>),
    TableRow(Vec<Vec<Inline>>),
    TableCell(Vec<Inline>),
}

/// An inline span that is open, with what it holds so far.
pub enum InlineContext {
    Emphasis(Vec<Inline>),
    Strong(Vec<Inline>),
    Link { url: String, title: Option<String>, content: Vec<Inline> },
    Image { url: String, title: Option<String>, alt: Vec<Inline> },
}

pub enum ContainerV {
    Paragraph(Seq<InlineV>),
    Heading { level: u8, content: Seq<InlineV> },
    BlockQuote(Seq<BlockV>),
    CodeBlock { language: Option<Seq<char>>, code: Seq<char> },
    List(ListBlockV),
    ListItem(Seq<BlockV>),
    Table(TableBlockV),
    TableHead(Seq<Seq<InlineV>>),
    TableRow(Seq<Seq<InlineV>>),
    TableCell(Seq<InlineV>),
}

pub enum InlineContextV {
    Emphasis(Seq<InlineV>),
    Strong(Seq<InlineV>),
    Link { url: Seq<char>, title: Option<Seq<char>>, content: Seq<InlineV> },
    Image { url: Seq<char>, title: Option<Seq<char>>, alt: Seq<InlineV> },
}

impl View for Container {
    type V = ContainerV;

    open spec fn view(&self) -> ContainerV {
        match self {
            Container::Paragraph(c) => ContainerV::Paragraph(inlines_view(c@)),
            Container::Heading { level, content } => ContainerV::Heading {
                level: *level,
                content: inlines_view(content@),
            },
            Container::BlockQuote(b) => ContainerV::BlockQuote(blocks_view(b@)),
            Container::CodeBlock { language, code } => ContainerV::CodeBlock {
                language: opt_str_view(*language),
                code: code@,
            },
            Container::List(l) => ContainerV::List(
                ListBlockV { ordered: l.ordered, start_index: l.start_index, items: items_view(l.items@) },
            ),
            Container::ListItem(i) => ContainerV::ListItem(blocks_view(i.blocks@)),
            Container::Table(t) => ContainerV::Table(
                TableBlockV { aligns: t.aligns@, headers: cells_view(t.headers@), rows: rows_view(t.rows@) },
            ),
            Container::TableHead(h) => ContainerV::TableHead(cells_view(h@)),
            Container::TableRow(r) => ContainerV::TableRow(cells_view(r@)),
            Container::TableCell(c) => ContainerV::TableCell(inlines_view(c@)),
        }
    }
}

impl View for InlineContext {
    type V = InlineContextV;

    open spec fn view(&self) -> InlineContextV {
        match self {
            InlineContext::Emphasis(c) => InlineContextV::Emphasis(inlines_view(c@)),
            InlineContext::Strong(c) => InlineContextV::Strong(inlines_view(c@)),
            InlineContext::Link { url, title, content } => InlineContextV::Link {
                url: url@,
                title: opt_str_view(*title),
                content: inlines_view(content@),
            },
            InlineContext::Image { url, title, alt } => InlineContextV::Image {
                url: url@,
                title: opt_str_view(*title),
                alt: inlines_view(alt@),
            },
        }
    }
}

pub open spec fn containers_view(s: Seq<Container>) -> Seq<ContainerV> {
    s.map_values(|c: Container| c@)
}

pub open spec fn contexts_view(s: Seq<InlineContext>) -> Seq<InlineContextV> {
    s.map_values(|c: InlineContext| c@)
}

/// Appends an inline, merging adjacent text into one text inline.
pub open spec fn spec_push_merged(content: Seq<InlineV>, inline: InlineV) -> Seq<InlineV> {
    if content.len() > 0 && content.last() is Text && inline is Text {
        content.update(content.len() - 1, InlineV::Text(content.last()->Text_0 + inline->Text_0))
    } else {
        content.push(inline)
    }
}

/// Appends an inline to an open span.
pub open spec fn spec_context_push(ctx: InlineContextV, inline: InlineV) -> InlineContextV {
    match ctx {
        InlineContextV::Emphasis(c) => InlineContextV::Emphasis(spec_push_merged(c, inline)),
        InlineContextV::Strong(c) => InlineContextV::Strong(spec_push_merged(c, inline)),
        InlineContextV::Link { url, title, content } => InlineContextV::Link {
            url,
            title,
            content: spec_push_merged(content, inline),
        },
        InlineContextV::Image { url, title, alt } => InlineContextV::Image {
            url,
            title,
            alt: spec_push_merged(alt, inline),
        },
    }
}

/// Appends an inline to a sequence, merging adjacent text.
pub fn push_inline_merged(content: &mut Vec<Inline>, inline: Inline)
    ensures
        inlines_view(final(content)@) == spec_push_merged(inlines_view(old(content)@), inline@),
{
    let ghost old_view = inlines_view(content@);
    match content.pop() {
        Some(Inline::Text(mut existing)) => {
            match inline {
                Inline::Text(text) => {
                    existing.append(text.as_str());
                    content.push(Inline::Text(existing));
                    assert(inlines_view(content@) =~= spec_push_merged(old_view, inline@));
                },
                other => {
                    content.push(Inline::Text(existing));
                    assert(content@ =~= old(content)@);
                    content.push(other);
                },
            }
        },
        Some(last) => {
            content.push(last);
            assert(content@ =~= old(content)@);
            content.push(inline);
        },
        None => {
            content.push(inline);
        },
    }
}

impl InlineContext {
    /// Appends an inline to this span.
    pub fn push(&mut self, inline: Inline)
        ensures
            final(self)@ == spec_context_push(old(self)@, inline@),
    {
        match self {
            InlineContext::Emphasis(content) => push_inline_merged(content, inline),
            InlineContext::Strong(content) => push_inline_merged(content, inline),
            InlineContext::Link { content, .. } => push_inline_merged(content, inline),
            InlineContext::Image { alt, .. } => push_inline_merged(alt, inline),
        }
    }
}

/// Separates fallback text before the next list item.
pub open spec fn spec_append_separator(content: Seq<InlineV>) -> Seq<InlineV> {
    if content.len() == 0 || content.last() is HardBreak {
        content
    } else if content.last() is Text && !(content.last()->Text_0.len() > 0 && spec_is_whitespace(
        content.last()->Text_0.last(),
    )) {
        content.update(content.len() - 1, InlineV::Text(content.last()->Text_0.push(' ')))
    } else {
        content.push(InlineV::Text(seq![' ']))
    }
}

/// Separates fallback text before the next list item: a space is added unless the
/// text already ends in whitespace or a hard break.
pub fn append_fallback_separator(content: &mut Vec<Inline>)
    ensures
        inlines_view(final(content)@) == spec_append_separator(inlines_view(old(content)@)),
{
    let ghost old_view = inlines_view(content@);
    match content.pop() {
        None => {},
        Some(Inline::Text(mut existing)) => {
            let s = existing.as_str();
            let n = crate::utils::text::chars_of(s);
            if n.len() > 0 && is_whitespace(n[n.len() - 1]) {
                content.push(Inline::Text(existing));
                assert(content@ =~= old(content)@);
                let mut sp = String::new();
                push_char(&mut sp, ' ');
                content.push(Inline::Text(sp));
                assert(inlines_view(content@) =~= spec_append_separator(old_view));
            } else {
                push_char(&mut existing, ' ');
                content.push(Inline::Text(existing));
                assert(inlines_view(content@) =~= spec_append_separator(old_view));
            }
        },
        Some(Inline::HardBreak) => {
            content.push(Inline::HardBreak);
            assert(content@ =~= old(content)@);
        },
        Some(other) => {
            content.push(other);
            assert(content@ =~= old(content)@);
            let mut sp = String::new();
            push_char(&mut sp, ' ');
            content.push(Inline::Text(sp));
            assert(inlines_view(content@) =~= spec_append_separator(old_view));
        },
    }
}

/// Drops trailing whitespace at the end of fallback text.
pub open spec fn spec_trim_trailing(content: Seq<InlineV>) -> Seq<InlineV> {
    if content.len() > 0 && content.last() is Text {
        let t = spec_trim_end(content.last()->Text_0);
        if t.len() == 0 {
            content.drop_last()
        } else {
            content.update(content.len() - 1, InlineV::Text(t))
        }
    } else {
        content
    }
}

/// Drops trailing whitespace at the end of fallback text, and the text if nothing is left.
pub fn trim_trailing_fallback_whitespace(content: &mut Vec<Inline>)
    ensures
        inlines_view(final(content)@) == spec_trim_trailing(inlines_view(old(content)@)),
{
    let ghost old_view = inlines_view(content@);
    match content.pop() {
        None => {},
        Some(Inline::Text(existing)) => {
            let trimmed = trim_end(existing.as_str());
            if !trimmed.as_str().is_empty() {
                content.push(Inline::Text(trimmed));
                assert(inlines_view(content@) =~= spec_trim_trailing(old_view));
            } else {
                assert(inlines_view(content@) =~= spec_trim_trailing(old_view));
            }
        },
        Some(other) => {
            content.push(other);
            assert(content@ =~= old(content)@);
        },
    }
}

/// How many lists are open.
pub open spec fn spec_list_depth(cs: Seq<ContainerV>) -> nat
    decreases cs.len(),
{
    if cs.len() == 0 {
        0
    } else {
        spec_list_depth(cs.drop_last()) + if cs.last() is List {
            1nat
        } else {
            0nat
        }
    }
}

/// How many lists are open.
pub fn current_list_depth(containers: &Vec<Container>) -> (d: usize)
    ensures
        d == spec_list_depth(containers_view(containers@)),
{
    let ghost cs = containers_view(containers@);
    let mut d: usize = 0;
    let mut i: usize = 0;
    while i < containers.len()
        invariant
            i <= containers.len(),
            cs == containers_view(containers@),
            d == spec_list_depth(cs.take(i as int)),
            d <= i,
        decreases containers.len() - i,
    {
        assert(cs.take(i + 1).drop_last() == cs.take(i as int));
        if let Container::List(_) = &containers[i] {
            d += 1;
        }
        i += 1;
    }
    assert(cs.take(cs.len() as int) == cs);
    d
}

/// The feature name of an element that the parser does not model as a block.
pub open spec fn spec_unsupported_block_feature(tag: MdTagV) -> Option<Seq<char>> {
    match tag {
        MdTagV::Plain(TagKind::HtmlBlock) => Some("html block"@),
        MdTagV::FootnoteDefinition(_) => Some("footnote"@),
        MdTagV::Plain(TagKind::DefinitionList) | MdTagV::Plain(TagKind::DefinitionListTitle)
        | MdTagV::Plain(TagKind::DefinitionListDefinition) => Some("definition list"@),
        _ => None,
    }
}

/// The feature name of an element that the parser does not model as a block.
pub fn unsupported_block_feature(tag: &MdTag) -> (f: Option<&'static str>)
    ensures
        match spec_unsupported_block_feature(tag@) {
            Some(n) => f matches Some(g) && g@ == n,
            None => f is None,
        },
{
    match tag {
        MdTag::Plain(TagKind::HtmlBlock) => Some("html block"),
        MdTag::FootnoteDefinition(_) => Some("footnote"),
        MdTag::Plain(TagKind::DefinitionList) | MdTag::Plain(TagKind::DefinitionListTitle)
        | MdTag::Plain(TagKind::DefinitionListDefinition) => Some("definition list"),
        _ => None,
    }
}

/// Whether an element kind opens a nesting level inside skipped content.
pub open spec fn spec_nesting_kind(k: TagKind) -> bool {
    match k {
        TagKind::List | TagKind::BlockQuote | TagKind::CodeBlock | TagKind::Table | TagKind::HtmlBlock
        | TagKind::FootnoteDefinition | TagKind::DefinitionList | TagKind::DefinitionListTitle
        | TagKind::DefinitionListDefinition => true,
        _ => false,
    }
}

/// The kind of an opening tag.
pub open spec fn spec_tag_kind(tag: MdTagV) -> TagKind {
    match tag {
        MdTagV::Heading(_) => TagKind::Heading,
        MdTagV::CodeBlock(_) => TagKind::CodeBlock,
        MdTagV::List(_) => TagKind::List,
        MdTagV::FootnoteDefinition(_) => TagKind::FootnoteDefinition,
        MdTagV::Table(_) => TagKind::Table,
        MdTagV::Link { .. } => TagKind::Link,
        MdTagV::Image { .. } => TagKind::Image,
        MdTagV::Plain(k) => k,
    }
}

/// Whether an opening tag opens a nesting level inside skipped content.
pub fn unsupported_block_nesting_tag(tag: &MdTag) -> (b: bool)
    ensures
        b == spec_nesting_kind(spec_tag_kind(tag@)),
{
    match tag {
        MdTag::Heading(_) | MdTag::Link { .. } | MdTag::Image { .. } => false,
        MdTag::CodeBlock(_) | MdTag::List(_) | MdTag::FootnoteDefinition(_) | MdTag::Table(_) => true,
        MdTag::Plain(k) => unsupported_block_nesting_end(*k),
    }
}

/// Whether a closing tag closes a nesting level inside skipped content.
pub fn unsupported_block_nesting_end(kind: TagKind) -> (b: bool)
    ensures
        b == spec_nesting_kind(kind),
{
    match kind {
        TagKind::List | TagKind::BlockQuote | TagKind::CodeBlock | TagKind::Table | TagKind::HtmlBlock
        | TagKind::FootnoteDefinition | TagKind::DefinitionList | TagKind::DefinitionListTitle
        | TagKind::DefinitionListDefinition => true,
        _ => false,
    }
}

/// The empty text becomes no value.
pub open spec fn spec_empty_to_none(s: Seq<char>) -> Option<Seq<char>> {
    if s.len() == 0 {
        None
    } else {
        Some(s)
    }
}

pub fn empty_to_none(value: String) -> (r: Option<String>)
    ensures
        opt_str_view(r) == spec_empty_to_none(value@),
{
    if value.as_str().is_empty() {
        None
    } else {
        Some(value)
    }
}

/// The language of a code block: the trimmed info string of a fenced block, if any.
pub open spec fn spec_code_block_language(info: Option<Seq<char>>) -> Option<Seq<char>> {
    match info {
        None => None,
        Some(s) => spec_empty_to_none(spec_trim(s)),
    }
}

pub fn code_block_language(info: &Option<String>) -> (r: Option<String>)
    ensures
        opt_str_view(r) == spec_code_block_language(opt_str_view(*info)),
{
    match info {
        None => None,
        Some(s) => empty_to_none(trim(s.as_str())),
    }
}

/// The plain text of inline content: text and code as written, the alt text of
/// images, and a space for each hard break.
pub open spec fn spec_flatten(s: Seq<InlineV>) -> Seq<char>
    decreases s, 0int,
{
    if s.len() == 0 {
        seq![]
    } else {
        spec_flatten(s.drop_last()) + spec_flatten_one(s.last())
    }
}

pub open spec fn spec_flatten_one(i: InlineV) -> Seq<char>
    decreases i, 1int,
{
    match i {
        InlineV::Text(v) => v,
        InlineV::Code(v) => v,
        InlineV::Emphasis(c) => spec_flatten(c),
        InlineV::Strong(c) => spec_flatten(c),
        InlineV::Link { text, .. } => spec_flatten(text),
        InlineV::Image(d) => d.alt,
        InlineV::HardBreak => seq![' '],
    }
}

/// The plain text of inline content.
pub fn flatten_inline_text(inlines: &Vec<Inline>) -> (text: String)
    ensures
        text@ == spec_flatten(inlines_view(inlines@)),
    decreases inlines,
{
    let ghost v = inlines_view(inlines@);
    let mut text = String::new();
    let mut i: usize = 0;
    while i < inlines.len()
        invariant
            i <= inlines.len(),
            v == inlines_view(inlines@),
            text@ == spec_flatten(v.take(i as int)),
        decreases inlines.len() - i,
    {
        assert(v.take(i + 1).drop_last() == v.take(i as int));
        assert(v[i as int] == inline_view(inlines@[i as int]));
        assert(v.take(i + 1).last() == inline_view(inlines@[i as int]));
        assert(spec_flatten(v.take(i + 1)) == spec_flatten(v.take(i as int)) + spec_flatten_one(v[i as int]));
        match &inlines[i] {
            Inline::Text(value) => text.append(value.as_str()),
            Inline::Code(value) => text.append(value.as_str()),
            Inline::Emphasis(content) => {
                let inner = flatten_inline_text(content);
                text.append(inner.as_str());
            },
            Inline::Strong(content) => {
                let inner = flatten_inline_text(content);
                text.append(inner.as_str());
            },
            Inline::Link { text: content, .. } => {
                let inner = flatten_inline_text(content);
                text.append(inner.as_str());
            },
            Inline::Image(image) => text.append(image.alt.as_str()),
            Inline::HardBreak => push_char(&mut text, ' '),
        }
        i += 1;
    }
    assert(v.take(v.len() as int) == v);
    text
}

} // verus!
