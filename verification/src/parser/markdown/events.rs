//! Opening and closing elements, and content inside skipped elements.
use vstd::prelude::*;
use crate::error::{CoreRsError, ErrorKind};
use crate::models::block::{Block, ListBlock, ListItem, TableBlock, TableBlockV, TableRow, blocks_view, cells_view, rows_view};
use crate::models::inline::{ImageData, Inline, InlineV, inlines_view};
use crate::parser::markdown::data_image::{
    DataImageError, ImageFallbackKind, image_fallback_text, parse_data_uri,
};
use crate::parser::markdown::machine::{
    MAX_TOTAL_DATA_URI_IMAGE_BYTES, spec_close_image, spec_close_link, spec_handle_end,
    spec_handle_start, spec_handle_unsupported, spec_last_table, spec_validate_link_url,
    spec_footnote_text, spec_task_marker, with_containers, with_inlines,
};
use crate::parser::markdown::push::{
    ParseState, push_block, push_fallback_text, push_inline_or_code, step_holds,
};
use crate::parser::markdown::source::{MdEvent, MdTag, TagKind};
use crate::parser::markdown::state::{
    Container, ContainerV, InlineContext, TableBuilder, append_fallback_separator, code_block_language,
    containers_view, contexts_view, empty_to_none, flatten_inline_text, push_inline_merged,
    trim_trailing_fallback_whitespace, unsupported_block_nesting_end, unsupported_block_nesting_tag,
};
use crate::utils::text::{ascii_lower_range, chars_eq, chars_of, find_from, owned, push_char, substring};

verus! {

broadcast use crate::models::block::group_view_lemmas;

/// Whether links with this URL are kept: only `http`, `https` and `mailto` schemes,
/// in any ASCII case.
pub fn validate_link_url(url: &str) -> (r: Result<(), CoreRsError>)
    ensures
        match spec_validate_link_url(url@) {
            Ok(()) => r is Ok,
            Err(e) => r matches Err(x) && x@ == e,
        },
{
    let cs = chars_of(url);
    proof { crate::parser::markdown::data_image::lemma_find_from_range(cs@, 0int, ':'); }
    match find_from(&cs, 0, ':') {
        None => Err(CoreRsError::from_str_detail(ErrorKind::UnsupportedFeature, "relative link targets")),
        Some(i) => {
            let lower = ascii_lower_range(&cs, 0, i);
            assert(cs@.subrange(0, i as int) == cs@.take(i as int));
            if chars_eq(&lower, "http") || chars_eq(&lower, "https") || chars_eq(&lower, "mailto") {
                Ok(())
            } else {
                let mut m = owned("unsupported link scheme: ");
                let scheme = substring(&cs, 0, i);
                m.append(scheme.as_str());
                Err(CoreRsError::new(ErrorKind::UnsupportedFeature, m))
            }
        },
    }
}

/// Opens an element.
pub fn handle_start(strict: bool, st: &mut ParseState, tag: MdTag) -> (r: Result<(), CoreRsError>)
    ensures
        step_holds(r, final(st)@, spec_handle_start(strict, old(st)@, tag@)),
{
    let ghost old_st = st@;
    let ghost s = spec_handle_start(strict, old_st, tag@);
    match tag {
        MdTag::Plain(TagKind::Paragraph) => st.containers.push(Container::Paragraph(Vec::new())),
        MdTag::Heading(level) => st.containers.push(Container::Heading { level, content: Vec::new() }),
        MdTag::Plain(TagKind::BlockQuote) => st.containers.push(Container::BlockQuote(Vec::new())),
        MdTag::CodeBlock(info) => {
            let language = code_block_language(&info);
            st.containers.push(Container::CodeBlock { language, code: String::new() });
        },
        MdTag::List(start) => {
            let start_index = match start {
                Some(n) => n,
                None => 1,
            };
            st.containers.push(Container::List(ListBlock { ordered: start.is_some(), start_index, items: Vec::new() }));
        },
        MdTag::Plain(TagKind::Item) => st.containers.push(Container::ListItem(ListItem { blocks: Vec::new() })),
        MdTag::Table(aligns) => st.containers.push(
            Container::Table(TableBuilder { aligns, headers: Vec::new(), rows: Vec::new() }),
        ),
        MdTag::Plain(TagKind::TableHead) => st.containers.push(Container::TableHead(Vec::new())),
        MdTag::Plain(TagKind::TableRow) => st.containers.push(Container::TableRow(Vec::new())),
        MdTag::Plain(TagKind::TableCell) => st.containers.push(Container::TableCell(Vec::new())),
        MdTag::Plain(TagKind::Emphasis) => st.inline_stack.push(InlineContext::Emphasis(Vec::new())),
        MdTag::Plain(TagKind::Strong) => st.inline_stack.push(InlineContext::Strong(Vec::new())),
        MdTag::Link { url, title } => {
            let title = empty_to_none(title);
            st.inline_stack.push(InlineContext::Link { url, title, content: Vec::new() });
        },
        MdTag::Image { url, title } => {
            let title = empty_to_none(title);
            st.inline_stack.push(InlineContext::Image { url, title, alt: Vec::new() });
        },
        _ => {
            if strict {
                return Err(CoreRsError::from_str_detail(ErrorKind::UnsupportedFeature, "extended markdown syntax"));
            }
        },
    }
    proof {
        assert(crate::models::block::cells_view(Seq::<Vec<Inline>>::empty()) =~= Seq::empty());
        assert(crate::models::block::rows_view(Seq::<TableRow>::empty()) =~= Seq::empty());
        if s is Ok {
            assert(containers_view(st.containers@) =~= s->Ok_0.containers);
            assert(contexts_view(st.inline_stack@) =~= s->Ok_0.inlines);
        }
    }
    Ok(())
}

/// The index of the innermost open table.
fn last_table_index(containers: &Vec<Container>) -> (r: Option<usize>)
    ensures
        match r {
            Some(k) => spec_last_table(containers_view(containers@)) == Some(k as int),
            None => spec_last_table(containers_view(containers@)) is None,
        },
{
    let ghost v = containers_view(containers@);
    let mut i = containers.len();
    assert(v.take(i as int) == v);
    while i > 0
        invariant
            i <= containers.len(),
            v == containers_view(containers@),
            spec_last_table(v) == spec_last_table(v.take(i as int)),
        decreases i,
    {
        assert(v.take(i as int).drop_last() == v.take(i - 1));
        assert(v.take(i as int).last() == v[i - 1]);
        if let Container::Table(_) = &containers[i - 1] {
            return Some(i - 1);
        }
        i -= 1;
    }
    None
}

fn close_link(strict: bool, st: &mut ParseState, url: String, content: Vec<Inline>) -> (r: Result<(), CoreRsError>)
    ensures
        step_holds(r, final(st)@, spec_close_link(strict, old(st)@, url@, inlines_view(content@))),
{
    match validate_link_url(url.as_str()) {
        Ok(()) => push_inline_or_code(st, Inline::Link { text: content, url }, None),
        Err(e) => {
            if strict {
                Err(e)
            } else {
                let text = flatten_inline_text(&content);
                let fallback = if text.as_str().is_empty() { url } else { text };
                push_fallback_text(st, fallback)
            }
        },
    }
}

fn close_image(strict: bool, st: &mut ParseState, url: String, title: Option<String>, alt: Vec<Inline>) -> (r: Result<(), CoreRsError>)
    ensures
        step_holds(r, final(st)@, spec_close_image(strict, old(st)@, url@, crate::models::inline::opt_str_view(title), inlines_view(alt@))),
{
    let alt_text = flatten_inline_text(&alt);
    match parse_data_uri(url.as_str()) {
        Ok((mime_type, extension, data)) => {
            if st.image_bytes.saturating_add(data.len()) > MAX_TOTAL_DATA_URI_IMAGE_BYTES {
                let error = DataImageError::TooLarge {
                    message: owned("total embedded image bytes exceed maximum supported size of 16777216 bytes"),
                };
                if strict {
                    return Err(error.into_core_error());
                }
                push_fallback_text(st, image_fallback_text(alt_text.as_str(), url.as_str(), ImageFallbackKind::Oversized))
            } else {
                st.image_bytes = st.image_bytes + data.len();
                push_inline_or_code(
                    st,
                    Inline::Image(ImageData { alt: alt_text, title, mime_type, extension, data }),
                    None,
                )
            }
        },
        Err(error) => {
            if !strict {
                let kind = error.fallback_kind();
                push_fallback_text(st, image_fallback_text(alt_text.as_str(), url.as_str(), kind))
            } else {
                Err(error.into_core_error())
            }
        },
    }
}

fn invalid_markdown(msg: &str) -> (e: CoreRsError)
    ensures
        e@ == crate::parser::markdown::machine::invalid(msg@),
{
    CoreRsError::from_str_detail(ErrorKind::InvalidMarkdown, msg)
}

fn end_block(strict: bool, st: &mut ParseState, kind: TagKind) -> (r: Result<(), CoreRsError>)
    requires
        kind == TagKind::Paragraph || kind == TagKind::Heading || kind == TagKind::BlockQuote || kind == TagKind::CodeBlock || kind == TagKind::List || kind == TagKind::Table,
    ensures
        step_holds(r, final(st)@, spec_handle_end(strict, old(st)@, kind)),
{
    let ghost old_st = st@;
    let ghost cs = containers_view(st.containers@);
    let ghost is = contexts_view(st.inline_stack@);
    match kind {
        TagKind::Paragraph => match st.containers.pop() {
            Some(Container::Paragraph(content)) => {
                assert(containers_view(st.containers@) =~= cs.drop_last());
                assert(st@ == with_containers(old_st, cs.drop_last()));
                push_block(st, Block::Paragraph(content))
            },
            _ => Err(invalid_markdown("paragraph close without open")),
        },
        TagKind::Heading => match st.containers.pop() {
            Some(Container::Heading { level, content }) => {
                assert(containers_view(st.containers@) =~= cs.drop_last());
                assert(st@ == with_containers(old_st, cs.drop_last()));
                push_block(st, Block::Heading { level, content })
            },
            _ => Err(invalid_markdown("heading close without open")),
        },
        TagKind::BlockQuote => match st.containers.pop() {
            Some(Container::BlockQuote(quoted)) => {
                assert(containers_view(st.containers@) =~= cs.drop_last());
                assert(st@ == with_containers(old_st, cs.drop_last()));
                push_block(st, Block::BlockQuote(quoted))
            },
            _ => Err(invalid_markdown("blockquote close without open")),
        },
        TagKind::CodeBlock => match st.containers.pop() {
            Some(Container::CodeBlock { language, code }) => {
                assert(containers_view(st.containers@) =~= cs.drop_last());
                assert(st@ == with_containers(old_st, cs.drop_last()));
                push_block(st, Block::CodeBlock { language, code })
            },
            _ => Err(invalid_markdown("code block close without open")),
        },
        TagKind::List => match st.containers.pop() {
            Some(Container::List(list)) => {
                assert(containers_view(st.containers@) =~= cs.drop_last());
                assert(st@ == with_containers(old_st, cs.drop_last()));
                push_block(st, Block::List(list))
            },
            _ => Err(invalid_markdown("list close without open")),
        },
        TagKind::Table => match st.containers.pop() {
            Some(Container::Table(table)) => {
                assert(containers_view(st.containers@) =~= cs.drop_last());
                assert(st@ == with_containers(old_st, cs.drop_last()));
                push_block(st, Block::Table(TableBlock { aligns: table.aligns, headers: table.headers, rows: table.rows }))
            },
            _ => Err(invalid_markdown("table close without open")),
        },
        _ => Ok(()),
    }
}

fn end_item(strict: bool, st: &mut ParseState, kind: TagKind) -> (r: Result<(), CoreRsError>)
    requires
        kind == TagKind::Item,
    ensures
        step_holds(r, final(st)@, spec_handle_end(strict, old(st)@, kind)),
{
    let ghost old_st = st@;
    let ghost cs = containers_view(st.containers@);
    let ghost is = contexts_view(st.inline_stack@);
    match kind {
        TagKind::Item => match st.containers.pop() {
            Some(Container::ListItem(item)) => match st.containers.pop() {
                Some(Container::List(mut list)) => {
                    list.items.push(item);
                    st.containers.push(Container::List(list));
                    assert(containers_view(st.containers@) =~= spec_handle_end(strict, old_st, kind)->Ok_0.containers);
                    Ok(())
                },
                _ => Err(invalid_markdown("list item close without list")),
            },
            _ => Err(invalid_markdown("list item close without open")),
        },
        _ => Ok(()),
    }
}

fn end_table_head(strict: bool, st: &mut ParseState, kind: TagKind) -> (r: Result<(), CoreRsError>)
    requires
        kind == TagKind::TableHead,
    ensures
        step_holds(r, final(st)@, spec_handle_end(strict, old(st)@, kind)),
{
    let ghost old_st = st@;
    let ghost old_cs = st.containers@;
    let ghost cs = containers_view(st.containers@);
    match st.containers.pop() {
        Some(Container::TableHead(headers)) => {
            let ghost rest = cs.drop_last();
            assert(cs.last() == old_cs.last()@);
            assert(containers_view(st.containers@) =~= rest);
            proof { crate::parser::markdown::machine::lemma_last_table(rest); }
            match last_table_index(&st.containers) {
                Some(k) => {
                    let ghost before = st.containers@;
                    let removed = st.containers.remove(k);
                    proof {
                        assert(containers_view(before)[k as int] == before[k as int]@);
                        assert(removed@ == rest[k as int]);
                    }
                    match removed {
                        Container::Table(table) => {
                            let ghost after_remove = st.containers@;
                            let new_table = Container::Table(TableBuilder { aligns: table.aligns, headers, rows: table.rows });
                            let ghost nv = new_table@;
                            st.containers.insert(k, new_table);
                            proof {
                                let t = rest[k as int]->Table_0;
                                assert(nv == ContainerV::Table(TableBlockV { headers: cs.last()->TableHead_0, ..t }));
                                assert(st.containers@ == before.remove(k as int).insert(k as int, new_table));
                                assert(containers_view(st.containers@) =~= rest.update(k as int, nv));
                                assert(spec_last_table(rest) == Some(k as int));
                                assert(spec_handle_end(strict, old_st, kind) == Ok::<_, crate::error::ErrorV>(with_containers(old_st, rest.update(k as int, nv))));
                                assert(st@ == with_containers(old_st, rest.update(k as int, nv)));
                            }
                            Ok(())
                        },
                        _ => Err(invalid_markdown("table tag without open table")),
                    }
                },
                None => Err(invalid_markdown("table tag without open table")),
            }
        },
        _ => Err(invalid_markdown("table head close without open")),
    }
}

fn end_table_row(strict: bool, st: &mut ParseState, kind: TagKind) -> (r: Result<(), CoreRsError>)
    requires
        kind == TagKind::TableRow,
    ensures
        step_holds(r, final(st)@, spec_handle_end(strict, old(st)@, kind)),
{
    let ghost old_st = st@;
    let ghost old_cs = st.containers@;
    let ghost cs = containers_view(st.containers@);
    match st.containers.pop() {
        Some(Container::TableRow(cells)) => {
            let ghost rest = cs.drop_last();
            assert(cs.last() == old_cs.last()@);
            assert(containers_view(st.containers@) =~= rest);
            proof { crate::parser::markdown::machine::lemma_last_table(rest); }
            match last_table_index(&st.containers) {
                Some(k) => {
                    let ghost before = st.containers@;
                    let removed = st.containers.remove(k);
                    proof {
                        assert(containers_view(before)[k as int] == before[k as int]@);
                        assert(removed@ == rest[k as int]);
                    }
                    match removed {
                        Container::Table(mut table) => {
                            let ghost old_rows = table.rows@;
                            table.rows.push(TableRow { cells });
                            assert(rows_view(table.rows@) =~= rows_view(old_rows).push(cells_view(cells@)));
                            let new_table = Container::Table(table);
                            let ghost nv = new_table@;
                            st.containers.insert(k, new_table);
                            proof {
                                let t = rest[k as int]->Table_0;
                                assert(nv == ContainerV::Table(TableBlockV { rows: t.rows.push(cs.last()->TableRow_0), ..t }));
                                assert(st.containers@ == before.remove(k as int).insert(k as int, new_table));
                                assert(containers_view(st.containers@) =~= rest.update(k as int, nv));
                                assert(spec_last_table(rest) == Some(k as int));
                                assert(spec_handle_end(strict, old_st, kind) == Ok::<_, crate::error::ErrorV>(with_containers(old_st, rest.update(k as int, nv))));
                                assert(st@ == with_containers(old_st, rest.update(k as int, nv)));
                            }
                            Ok(())
                        },
                        _ => Err(invalid_markdown("table tag without open table")),
                    }
                },
                None => Err(invalid_markdown("table tag without open table")),
            }
        },
        _ => Err(invalid_markdown("table row close without open")),
    }
}

fn end_table_cell(strict: bool, st: &mut ParseState, kind: TagKind) -> (r: Result<(), CoreRsError>)
    requires
        kind == TagKind::TableCell,
    ensures
        step_holds(r, final(st)@, spec_handle_end(strict, old(st)@, kind)),
{
    let ghost old_st = st@;
    let ghost cs = containers_view(st.containers@);
    let ghost is = contexts_view(st.inline_stack@);
    match kind {
        TagKind::TableCell => match st.containers.pop() {
            Some(Container::TableCell(cell)) => match st.containers.pop() {
                Some(Container::TableRow(mut cells)) => {
                    cells.push(cell);
                    st.containers.push(Container::TableRow(cells));
                    assert(crate::models::block::cells_view(cells@) =~= spec_handle_end(strict, old_st, kind)->Ok_0.containers.last()->TableRow_0);
                    assert(containers_view(st.containers@) =~= spec_handle_end(strict, old_st, kind)->Ok_0.containers);
                    Ok(())
                },
                Some(Container::TableHead(mut headers)) => {
                    headers.push(cell);
                    st.containers.push(Container::TableHead(headers));
                    assert(crate::models::block::cells_view(headers@) =~= spec_handle_end(strict, old_st, kind)->Ok_0.containers.last()->TableHead_0);
                    assert(containers_view(st.containers@) =~= spec_handle_end(strict, old_st, kind)->Ok_0.containers);
                    Ok(())
                },
                _ => Err(invalid_markdown("table cell close without row")),
            },
            _ => Err(invalid_markdown("table cell close without open")),
        },
        _ => Ok(()),
    }
}

fn end_span(strict: bool, st: &mut ParseState, kind: TagKind) -> (r: Result<(), CoreRsError>)
    requires
        kind == TagKind::Emphasis || kind == TagKind::Strong || kind == TagKind::Link || kind == TagKind::Image,
    ensures
        step_holds(r, final(st)@, spec_handle_end(strict, old(st)@, kind)),
{
    let ghost old_st = st@;
    let ghost cs = containers_view(st.containers@);
    let ghost is = contexts_view(st.inline_stack@);
    match kind {
        TagKind::Emphasis => match st.inline_stack.pop() {
            Some(InlineContext::Emphasis(content)) => {
                assert(contexts_view(st.inline_stack@) =~= is.drop_last());
                assert(st@ == with_inlines(old_st, is.drop_last()));
                push_inline_or_code(st, Inline::Emphasis(content), None)
            },
            _ => Err(invalid_markdown("emphasis close without open")),
        },
        TagKind::Strong => match st.inline_stack.pop() {
            Some(InlineContext::Strong(content)) => {
                assert(contexts_view(st.inline_stack@) =~= is.drop_last());
                assert(st@ == with_inlines(old_st, is.drop_last()));
                push_inline_or_code(st, Inline::Strong(content), None)
            },
            _ => Err(invalid_markdown("strong close without open")),
        },
        TagKind::Link => match st.inline_stack.pop() {
            Some(InlineContext::Link { url, title: _, content }) => {
                assert(contexts_view(st.inline_stack@) =~= is.drop_last());
                assert(st@ == with_inlines(old_st, is.drop_last()));
                close_link(strict, st, url, content)
            },
            _ => Err(invalid_markdown("link close without open")),
        },
        TagKind::Image => match st.inline_stack.pop() {
            Some(InlineContext::Image { url, title, alt }) => {
                assert(contexts_view(st.inline_stack@) =~= is.drop_last());
                assert(st@ == with_inlines(old_st, is.drop_last()));
                close_image(strict, st, url, title, alt)
            },
            _ => Err(invalid_markdown("image close without open")),
        },
        _ => Ok(()),
    }
}

/// Closes an element.
pub fn handle_end(strict: bool, st: &mut ParseState, kind: TagKind) -> (r: Result<(), CoreRsError>)
    ensures
        step_holds(r, final(st)@, spec_handle_end(strict, old(st)@, kind)),
{
    match kind {
        TagKind::Paragraph | TagKind::Heading | TagKind::BlockQuote | TagKind::CodeBlock | TagKind::List
        | TagKind::Table => end_block(strict, st, kind),
        TagKind::Item => end_item(strict, st, kind),
        TagKind::TableHead => end_table_head(strict, st, kind),
        TagKind::TableRow => end_table_row(strict, st, kind),
        TagKind::TableCell => end_table_cell(strict, st, kind),
        TagKind::Emphasis | TagKind::Strong | TagKind::Link | TagKind::Image => end_span(strict, st, kind),
        _ => Ok(()),
    }
}

/// The visible text of a footnote reference.
pub fn footnote_text(label: &str) -> (t: String)
    ensures
        t@ == spec_footnote_text(label@),
{
    let mut t = owned("[^");
    t.append(label);
    t.append("]");
    t
}

/// The visible text of a task list marker.
pub fn task_marker(checked: bool) -> (t: String)
    ensures
        t@ == spec_task_marker(checked),
{
    if checked { owned("[x] ") } else { owned("[ ] ") }
}

/// Handles an event inside content that is rendered as plain text: nesting is
/// counted, text is gathered, and when the outermost skipped element closes the
/// gathered text becomes a paragraph.
pub fn handle_unsupported_event(st: &mut ParseState, event: MdEvent) -> (r: Result<(), CoreRsError>)
    requires
        old(st).unsupported_depth > 0,
        old(st).unsupported_depth < usize::MAX,
    ensures
        step_holds(r, final(st)@, spec_handle_unsupported(old(st)@, event@)),
{
    let ghost old_st = st@;
    let ghost ev = event@;
    match event {
        MdEvent::Start(tag) => {
            let is_item = match &tag {
                MdTag::Plain(TagKind::Item) => true,
                _ => false,
            };
            assert(is_item == (tag@ == crate::parser::markdown::source::MdTagV::Plain(TagKind::Item)));
            if is_item && st.unsupported_content.len() > 0 {
                append_fallback_separator(&mut st.unsupported_content);
            }
            if unsupported_block_nesting_tag(&tag) {
                st.unsupported_depth = st.unsupported_depth + 1;
            }
            assert(st@.fallback == spec_handle_unsupported(old_st, ev)->Ok_0.fallback);
            Ok(())
        },
        MdEvent::End(kind) => {
            if unsupported_block_nesting_end(kind) {
                st.unsupported_depth = st.unsupported_depth - 1;
                if st.unsupported_depth == 0 {
                    trim_trailing_fallback_whitespace(&mut st.unsupported_content);
                    if st.unsupported_content.len() > 0 {
                        let mut content: Vec<Inline> = Vec::new();
                        std::mem::swap(&mut content, &mut st.unsupported_content);
                        assert(inlines_view(st.unsupported_content@) =~= Seq::empty());
                        return push_block(st, Block::Paragraph(content));
                    }
                }
            }
            Ok(())
        },
        MdEvent::Text(t) => {
            push_inline_merged(&mut st.unsupported_content, Inline::Text(t));
            Ok(())
        },
        MdEvent::Code(t) => {
            push_inline_merged(&mut st.unsupported_content, Inline::Text(t));
            Ok(())
        },
        MdEvent::Html(t) => {
            push_inline_merged(&mut st.unsupported_content, Inline::Text(t));
            Ok(())
        },
        MdEvent::InlineHtml(t) => {
            push_inline_merged(&mut st.unsupported_content, Inline::Text(t));
            Ok(())
        },
        MdEvent::InlineMath(t) => {
            push_inline_merged(&mut st.unsupported_content, Inline::Text(t));
            Ok(())
        },
        MdEvent::DisplayMath(t) => {
            push_inline_merged(&mut st.unsupported_content, Inline::Text(t));
            Ok(())
        },
        MdEvent::SoftBreak => {
            let mut sp = String::new();
            push_char(&mut sp, ' ');
            push_inline_merged(&mut st.unsupported_content, Inline::Text(sp));
            Ok(())
        },
        MdEvent::HardBreak => {
            st.unsupported_content.push(Inline::HardBreak);
            Ok(())
        },
        MdEvent::Rule => {
            push_inline_merged(&mut st.unsupported_content, Inline::Text(owned("---")));
            Ok(())
        },
        MdEvent::FootnoteReference(label) => {
            push_inline_merged(&mut st.unsupported_content, Inline::Text(footnote_text(label.as_str())));
            Ok(())
        },
        MdEvent::TaskListMarker(checked) => {
            push_inline_merged(&mut st.unsupported_content, Inline::Text(task_marker(checked)));
            Ok(())
        },
    }
}

} // verus!
