//! The event stream that the markdown tokenizer yields, as plain values.
use vstd::prelude::*;
use pulldown_cmark::{Alignment, CodeBlockKind, Event, Options, Parser, Tag, TagEnd};
use crate::models::block::TableAlignment;

verus! {

#[verifier::external_type_specification]
#[verifier::external_body]
pub struct ExMarkdownEvent<'a>(Event<'a>);

#[verifier::external_type_specification]
#[verifier::external_body]
pub struct ExMarkdownTag<'a>(Tag<'a>);

#[verifier::external_type_specification]
#[verifier::external_body]
pub struct ExMarkdownTagEnd(TagEnd);

#[verifier::external_type_specification]
#[verifier::external_body]
pub struct ExMarkdownAlignment(Alignment);

/// The kind of a markdown element, as named by its opening and closing events.
#[derive(Debug, Clone, Copy, PartialEq, Eq, Structural)]
pub enum TagKind {
    Paragraph,
    Heading,
    BlockQuote,
    CodeBlock,
    HtmlBlock,
    List,
    Item,
    FootnoteDefinition,
    DefinitionList,
    DefinitionListTitle,
    DefinitionListDefinition,
    Table,
    TableHead,
    TableRow,
    TableCell,
    Emphasis,
    Strong,
    Strikethrough,
    Link,
    Image,
    MetadataBlock,
}

/// The opening of a markdown element, with what the parser reads of it.
#[derive(Debug)]
pub enum MdTag {
    Heading(u8),
    /// `None` for an indented code block, the info string for a fenced one.
    CodeBlock(Option<String>),
    /// The start number of an ordered list, `None` for a bullet list.
    List(Option<u64>),
    FootnoteDefinition(String),
    Table(Vec<TableAlignment>),
    Link { url: String, title: String },
    Image { url: String, title: String },
    /// An element that carries nothing besides its kind.
    Plain(TagKind),
}

/// One event of the markdown tokenizer.
#[derive(Debug)]
pub enum MdEvent {
    Start(MdTag),
    End(TagKind),
    Text(String),
    Code(String),
    InlineMath(String),
    DisplayMath(String),
    Html(String),
    InlineHtml(String),
    FootnoteReference(String),
    SoftBreak,
    HardBreak,
    Rule,
    TaskListMarker(bool),
}

pub enum MdTagV {
    Heading(u8),
    CodeBlock(Option<Seq<char>>),
    List(Option<u64>),
    FootnoteDefinition(Seq<char>),
    Table(Seq<TableAlignment>),
    Link { url: Seq<char>, title: Seq<char> },
    Image { url: Seq<char>, title: Seq<char> },
    Plain(TagKind),
}

pub enum MdEventV {
    Start(MdTagV),
    End(TagKind),
    Text(Seq<char>),
    Code(Seq<char>),
    InlineMath(Seq<char>),
    DisplayMath(Seq<char>),
    Html(Seq<char>),
    InlineHtml(Seq<char>),
    FootnoteReference(Seq<char>),
    SoftBreak,
    HardBreak,
    Rule,
    TaskListMarker(bool),
}

impl View for MdTag {
    type V = MdTagV;

    open spec fn view(&self) -> MdTagV {
        match self {
            MdTag::Heading(l) => MdTagV::Heading(*l),
            MdTag::CodeBlock(None) => MdTagV::CodeBlock(None),
            MdTag::CodeBlock(Some(s)) => MdTagV::CodeBlock(Some(s@)),
            MdTag::List(s) => MdTagV::List(*s),
            MdTag::FootnoteDefinition(s) => MdTagV::FootnoteDefinition(s@),
            MdTag::Table(a) => MdTagV::Table(a@),
            MdTag::Link { url, title } => MdTagV::Link { url: url@, title: title@ },
            MdTag::Image { url, title } => MdTagV::Image { url: url@, title: title@ },
            MdTag::Plain(k) => MdTagV::Plain(*k),
        }
    }
}

impl View for MdEvent {
    type V = MdEventV;

    open spec fn view(&self) -> MdEventV {
        match self {
            MdEvent::Start(t) => MdEventV::Start(t@),
            MdEvent::End(k) => MdEventV::End(*k),
            MdEvent::Text(s) => MdEventV::Text(s@),
            MdEvent::Code(s) => MdEventV::Code(s@),
            MdEvent::InlineMath(s) => MdEventV::InlineMath(s@),
            MdEvent::DisplayMath(s) => MdEventV::DisplayMath(s@),
            MdEvent::Html(s) => MdEventV::Html(s@),
            MdEvent::InlineHtml(s) => MdEventV::InlineHtml(s@),
            MdEvent::FootnoteReference(s) => MdEventV::FootnoteReference(s@),
            MdEvent::SoftBreak => MdEventV::SoftBreak,
            MdEvent::HardBreak => MdEventV::HardBreak,
            MdEvent::Rule => MdEventV::Rule,
            MdEvent::TaskListMarker(b) => MdEventV::TaskListMarker(*b),
        }
    }
}

pub open spec fn events_view(s: Seq<MdEvent>) -> Seq<MdEventV> {
    s.map_values(|e: MdEvent| e@)
}

/// The events that the CommonMark tokenizer (with every extension enabled) yields
/// for a markdown text.
pub uninterp spec fn spec_markdown_events(markdown: Seq<char>) -> Seq<MdEventV>;

/// Tokenizes markdown.
///
/// Trusted: runs `pulldown_cmark::Parser::new_ext` with `Options::all()` and converts
/// each event, one for one; the contract only names the result, which depends on
/// the text alone.
#[verifier::external_body]
pub fn markdown_events(markdown: &str) -> (events: Vec<MdEvent>)
    ensures
        events_view(events@) == spec_markdown_events(markdown@),
{
    let mut events = Vec::new();
    for event in Parser::new_ext(markdown, Options::all()) {
        events.push(md_event(event));
    }
    events
}

/// Converts a tokenizer event, one variant for one: elements and text.
#[verifier::external_body]
fn md_event(event: Event<'_>) -> MdEvent {
    match event {
        Event::Start(tag) => MdEvent::Start(md_tag(tag)),
        Event::End(end) => MdEvent::End(tag_kind(end)),
        Event::Text(t) => MdEvent::Text(t.into_string()),
        Event::Code(t) => MdEvent::Code(t.into_string()),
        Event::InlineMath(t) => MdEvent::InlineMath(t.into_string()),
        Event::DisplayMath(t) => MdEvent::DisplayMath(t.into_string()),
        other => md_other_event(other),
    }
}

/// Converts a tokenizer event, one variant for one: markup, breaks and markers.
#[verifier::external_body]
fn md_other_event(event: Event<'_>) -> MdEvent {
    match event {
        Event::Html(t) => MdEvent::Html(t.into_string()),
        Event::InlineHtml(t) => MdEvent::InlineHtml(t.into_string()),
        Event::FootnoteReference(t) => MdEvent::FootnoteReference(t.into_string()),
        Event::SoftBreak => MdEvent::SoftBreak,
        Event::HardBreak => MdEvent::HardBreak,
        Event::Rule => MdEvent::Rule,
        Event::TaskListMarker(checked) => MdEvent::TaskListMarker(checked),
        other => md_event(other),
    }
}

/// Converts the opening of an element: headings, code blocks, lists, footnotes.
#[verifier::external_body]
fn md_tag(tag: Tag<'_>) -> MdTag {
    match tag {
        Tag::Heading { level, .. } => MdTag::Heading(level as u8),
        Tag::CodeBlock(CodeBlockKind::Indented) => MdTag::CodeBlock(None),
        Tag::CodeBlock(CodeBlockKind::Fenced(info)) => MdTag::CodeBlock(Some(info.into_string())),
        Tag::List(start) => MdTag::List(start),
        Tag::FootnoteDefinition(label) => MdTag::FootnoteDefinition(label.into_string()),
        other => md_other_tag(other),
    }
}

/// Converts the opening of an element: tables, links, images, and the elements that
/// carry nothing but their kind.
#[verifier::external_body]
fn md_other_tag(tag: Tag<'_>) -> MdTag {
    match tag {
        Tag::Table(aligns) => MdTag::Table(aligns.into_iter().map(table_alignment).collect()),
        Tag::Link { dest_url, title, .. } => MdTag::Link { url: dest_url.into_string(), title: title.into_string() },
        Tag::Image { dest_url, title, .. } => MdTag::Image { url: dest_url.into_string(), title: title.into_string() },
        other => MdTag::Plain(tag_kind(other.to_end())),
    }
}

/// Converts a column alignment.
#[verifier::external_body]
fn table_alignment(alignment: Alignment) -> TableAlignment {
    match alignment {
        Alignment::None => TableAlignment::Unaligned,
        Alignment::Left => TableAlignment::Left,
        Alignment::Center => TableAlignment::Center,
        Alignment::Right => TableAlignment::Right,
    }
}

/// Converts the kind of an element: block elements.
#[verifier::external_body]
fn tag_kind(end: TagEnd) -> TagKind {
    match end {
        TagEnd::Paragraph => TagKind::Paragraph,
        TagEnd::Heading(_) => TagKind::Heading,
        TagEnd::BlockQuote(_) => TagKind::BlockQuote,
        TagEnd::CodeBlock => TagKind::CodeBlock,
        TagEnd::HtmlBlock => TagKind::HtmlBlock,
        TagEnd::List(_) => TagKind::List,
        TagEnd::Item => TagKind::Item,
        TagEnd::FootnoteDefinition => TagKind::FootnoteDefinition,
        TagEnd::DefinitionList => TagKind::DefinitionList,
        TagEnd::DefinitionListTitle => TagKind::DefinitionListTitle,
        TagEnd::DefinitionListDefinition => TagKind::DefinitionListDefinition,
        other => table_or_span_kind(other),
    }
}

/// Converts the kind of an element: tables, spans and metadata.
#[verifier::external_body]
fn table_or_span_kind(end: TagEnd) -> TagKind {
    match end {
        TagEnd::Table => TagKind::Table,
        TagEnd::TableHead => TagKind::TableHead,
        TagEnd::TableRow => TagKind::TableRow,
        TagEnd::TableCell => TagKind::TableCell,
        TagEnd::Emphasis => TagKind::Emphasis,
        TagEnd::Strong => TagKind::Strong,
        TagEnd::Strikethrough => TagKind::Strikethrough,
        TagEnd::Link => TagKind::Link,
        TagEnd::Image => TagKind::Image,
        _ => TagKind::MetadataBlock,
    }
}

} // verus!
