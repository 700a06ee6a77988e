//! What the markdown parser does with each tokenizer event, stated over views.
use vstd::prelude::*;
use crate::error::{ErrorKind, ErrorV, err};
use crate::models::block::{BlockV, ListBlockV, TableBlockV};
use crate::models::inline::{ImageDataV, InlineV};
use crate::parser::markdown::data_image::{
    DataImageErrorV, ImageFallbackKind, spec_fallback_kind, spec_image_fallback_text,
    spec_into_core_error, spec_parse_data_uri,
};
use crate::parser::markdown::source::{MdEventV, MdTagV, TagKind};
use crate::parser::markdown::state::{
    ContainerV, InlineContextV, spec_append_separator, spec_code_block_language, spec_context_push,
    spec_empty_to_none, spec_flatten, spec_list_depth, spec_nesting_kind, spec_push_merged,
    spec_tag_kind, spec_trim_trailing, spec_unsupported_block_feature,
};
use crate::utils::text::{spec_ascii_lower, spec_find_from};

verus! {

/// The largest total of embedded image bytes in one document.
pub const MAX_TOTAL_DATA_URI_IMAGE_BYTES: usize = 16777216;

/// The parser's state between two events.
pub struct StateV {
    /// The finished top-level blocks.
    pub blocks: Seq<BlockV>,
    /// The open block elements, innermost last.
    pub containers: Seq<ContainerV>,
    /// The open inline spans, innermost last.
    pub inlines: Seq<InlineContextV>,
    /// How deep the parser is inside content that it renders as plain text.
    pub depth: nat,
    /// The plain text gathered from such content so far.
    pub fallback: Seq<InlineV>,
    /// The bytes of images embedded so far.
    pub image_bytes: nat,
}

pub type Step = Result<StateV, ErrorV>;

pub open spec fn initial_state() -> StateV {
    StateV {
        blocks: seq![],
        containers: seq![],
        inlines: seq![],
        depth: 0,
        fallback: seq![],
        image_bytes: 0,
    }
}

pub open spec fn invalid(msg: Seq<char>) -> ErrorV {
    err(ErrorKind::InvalidMarkdown, msg)
}

pub open spec fn unsupported(msg: Seq<char>) -> ErrorV {
    err(ErrorKind::UnsupportedFeature, msg)
}

pub open spec fn with_containers(st: StateV, cs: Seq<ContainerV>) -> StateV {
    StateV { containers: cs, ..st }
}

pub open spec fn with_inlines(st: StateV, is: Seq<InlineContextV>) -> StateV {
    StateV { inlines: is, ..st }
}

/// A finished block goes into the innermost quote or list item, or to the top level.
pub open spec fn spec_push_block(st: StateV, b: BlockV) -> Step {
    let cs = st.containers;
    if cs.len() == 0 {
        Ok(StateV { blocks: st.blocks.push(b), ..st })
    } else {
        match cs.last() {
            ContainerV::BlockQuote(q) => Ok(with_containers(st, cs.update(cs.len() - 1, ContainerV::BlockQuote(q.push(b))))),
            ContainerV::ListItem(q) => Ok(with_containers(st, cs.update(cs.len() - 1, ContainerV::ListItem(q.push(b))))),
            _ => Err(invalid("block appeared in an invalid container"@)),
        }
    }
}

/// Where an inline goes: the innermost open span, else the open code block (as
/// text), else the open paragraph, heading or table cell; else non-empty text
/// becomes a paragraph of its own.
/// An inline in a list item or quote with no open paragraph (a tight list item):
/// it joins the item's last block where that is a paragraph, else starts one.
pub open spec fn spec_append_to_paragraph(bs: Seq<BlockV>, inline: InlineV) -> Seq<BlockV> {
    if bs.len() > 0 && bs.last() is Paragraph {
        bs.update(bs.len() - 1, BlockV::Paragraph(spec_push_merged(bs.last()->Paragraph_0, inline)))
    } else {
        bs.push(BlockV::Paragraph(seq![inline]))
    }
}

pub open spec fn spec_push_inline_or_code(st: StateV, inline: InlineV, code_break: Option<char>) -> Step {
    let is = st.inlines;
    let cs = st.containers;
    if is.len() > 0 {
        Ok(with_inlines(st, is.update(is.len() - 1, spec_context_push(is.last(), inline))))
    } else if cs.len() > 0 && cs.last() is CodeBlock {
        let language = cs.last()->CodeBlock_language;
        let code = cs.last()->CodeBlock_code;
        let new_code = match inline {
            InlineV::Text(t) => Some(code + t),
            InlineV::Code(t) => Some(code + t),
            InlineV::HardBreak => match code_break {
                Some(c) => Some(code.push(c)),
                None => Some(code.push('\n')),
            },
            _ => None,
        };
        match new_code {
            Some(c) => Ok(with_containers(st, cs.update(cs.len() - 1, ContainerV::CodeBlock { language, code: c }))),
            None => Err(invalid("invalid inline inside code block"@)),
        }
    } else if cs.len() > 0 && cs.last() is Paragraph {
        Ok(with_containers(st, cs.update(cs.len() - 1, ContainerV::Paragraph(spec_push_merged(cs.last()->Paragraph_0, inline)))))
    } else if cs.len() > 0 && cs.last() is TableCell {
        Ok(with_containers(st, cs.update(cs.len() - 1, ContainerV::TableCell(spec_push_merged(cs.last()->TableCell_0, inline)))))
    } else if cs.len() > 0 && cs.last() is Heading {
        Ok(with_containers(st, cs.update(cs.len() - 1, ContainerV::Heading {
            level: cs.last()->Heading_level,
            content: spec_push_merged(cs.last()->Heading_content, inline),
        })))
    } else if cs.len() > 0 && cs.last() is ListItem {
        Ok(with_containers(st, cs.update(cs.len() - 1, ContainerV::ListItem(spec_append_to_paragraph(cs.last()->ListItem_0, inline)))))
    } else if cs.len() > 0 && cs.last() is BlockQuote {
        Ok(with_containers(st, cs.update(cs.len() - 1, ContainerV::BlockQuote(spec_append_to_paragraph(cs.last()->BlockQuote_0, inline)))))
    } else {
        match inline {
            InlineV::Text(t) => if t.len() > 0 {
                spec_push_block(st, BlockV::Paragraph(seq![InlineV::Text(t)]))
            } else {
                Err(invalid("inline content appeared outside a text container"@))
            },
            InlineV::HardBreak => Err(invalid("hard break appeared outside a text container"@)),
            _ => Err(invalid("inline content appeared outside a text container"@)),
        }
    }
}

/// Whether the innermost container takes text.
pub open spec fn takes_text(cs: Seq<ContainerV>) -> bool {
    cs.len() > 0 && (cs.last() is Paragraph || cs.last() is Heading || cs.last() is TableCell
        || cs.last() is CodeBlock)
}

/// Text that stands in for content the parser does not model.
pub open spec fn spec_push_fallback_text(st: StateV, text: Seq<char>) -> Step {
    if text.len() == 0 {
        Ok(st)
    } else if st.inlines.len() > 0 || takes_text(st.containers) {
        spec_push_inline_or_code(st, InlineV::Text(text), None)
    } else {
        spec_push_block(st, BlockV::Paragraph(seq![InlineV::Text(text)]))
    }
}

/// Opening an element.
pub open spec fn spec_handle_start(strict: bool, st: StateV, tag: MdTagV) -> Step {
    let cs = st.containers;
    let is = st.inlines;
    match tag {
        MdTagV::Plain(TagKind::Paragraph) => Ok(with_containers(st, cs.push(ContainerV::Paragraph(seq![])))),
        MdTagV::Heading(level) => Ok(with_containers(st, cs.push(ContainerV::Heading { level, content: seq![] }))),
        MdTagV::Plain(TagKind::BlockQuote) => Ok(with_containers(st, cs.push(ContainerV::BlockQuote(seq![])))),
        MdTagV::CodeBlock(info) => Ok(with_containers(st, cs.push(ContainerV::CodeBlock {
            language: spec_code_block_language(info),
            code: seq![],
        }))),
        MdTagV::List(start) => Ok(with_containers(st, cs.push(ContainerV::List(ListBlockV {
            ordered: start is Some,
            start_index: match start { Some(n) => n, None => 1 },
            items: seq![],
        })))),
        MdTagV::Plain(TagKind::Item) => Ok(with_containers(st, cs.push(ContainerV::ListItem(seq![])))),
        MdTagV::Table(aligns) => Ok(with_containers(st, cs.push(ContainerV::Table(TableBlockV {
            aligns,
            headers: seq![],
            rows: seq![],
        })))),
        MdTagV::Plain(TagKind::TableHead) => Ok(with_containers(st, cs.push(ContainerV::TableHead(seq![])))),
        MdTagV::Plain(TagKind::TableRow) => Ok(with_containers(st, cs.push(ContainerV::TableRow(seq![])))),
        MdTagV::Plain(TagKind::TableCell) => Ok(with_containers(st, cs.push(ContainerV::TableCell(seq![])))),
        MdTagV::Plain(TagKind::Emphasis) => Ok(with_inlines(st, is.push(InlineContextV::Emphasis(seq![])))),
        MdTagV::Plain(TagKind::Strong) => Ok(with_inlines(st, is.push(InlineContextV::Strong(seq![])))),
        MdTagV::Link { url, title } => Ok(with_inlines(st, is.push(InlineContextV::Link {
            url,
            title: spec_empty_to_none(title),
            content: seq![],
        }))),
        MdTagV::Image { url, title } => Ok(with_inlines(st, is.push(InlineContextV::Image {
            url,
            title: spec_empty_to_none(title),
            alt: seq![],
        }))),
        _ => if strict {
            Err(unsupported("extended markdown syntax"@))
        } else {
            Ok(st)
        },
    }
}

/// The index of the innermost open table.
pub open spec fn spec_last_table(cs: Seq<ContainerV>) -> Option<int>
    decreases cs.len(),
{
    if cs.len() == 0 {
        None
    } else if cs.last() is Table {
        Some(cs.len() - 1)
    } else {
        spec_last_table(cs.drop_last())
    }
}

pub proof fn lemma_last_table(cs: Seq<ContainerV>)
    ensures
        spec_last_table(cs) matches Some(k) ==> 0 <= k < cs.len() && cs[k] is Table,
    decreases cs.len(),
{
    if cs.len() > 0 && !(cs.last() is Table) {
        lemma_last_table(cs.drop_last());
    }
}

/// The scheme of a link URL, and whether links with it are kept.
pub open spec fn spec_validate_link_url(url: Seq<char>) -> Result<(), ErrorV> {
    match spec_find_from(url, 0, ':') {
        None => Err(unsupported("relative link targets"@)),
        Some(i) => {
            let scheme = url.take(i);
            let lower = spec_ascii_lower(scheme);
            if lower == "http"@ || lower == "https"@ || lower == "mailto"@ {
                Ok(())
            } else {
                Err(unsupported("unsupported link scheme: "@ + scheme))
            }
        },
    }
}

pub open spec fn total_too_large_message() -> Seq<char> {
    "total embedded image bytes exceed maximum supported size of 16777216 bytes"@
}

/// Closing an image: an embeddable data URI becomes an image, anything else its
/// fallback text (or an error in strict mode).
pub open spec fn spec_close_image(strict: bool, st: StateV, url: Seq<char>, title: Option<Seq<char>>, alt: Seq<InlineV>) -> Step {
    let alt_text = spec_flatten(alt);
    match spec_parse_data_uri(url) {
        Ok((mime, ext, data)) => if st.image_bytes + data.len() > MAX_TOTAL_DATA_URI_IMAGE_BYTES {
            if strict {
                Err(unsupported(total_too_large_message()))
            } else {
                spec_push_fallback_text(st, spec_image_fallback_text(alt_text, url, ImageFallbackKind::Oversized))
            }
        } else {
            spec_push_inline_or_code(
                StateV { image_bytes: st.image_bytes + data.len(), ..st },
                InlineV::Image(ImageDataV { alt: alt_text, title, mime_type: mime, extension: ext, data }),
                None,
            )
        },
        Err(e) => if strict {
            Err(spec_into_core_error(e))
        } else {
            spec_push_fallback_text(st, spec_image_fallback_text(alt_text, url, spec_fallback_kind(e)))
        },
    }
}

/// Closing a link: a link with a kept scheme stays a link, anything else becomes its
/// text (or its URL when it has no text), or an error in strict mode.
pub open spec fn spec_close_link(strict: bool, st: StateV, url: Seq<char>, content: Seq<InlineV>) -> Step {
    match spec_validate_link_url(url) {
        Ok(()) => spec_push_inline_or_code(st, InlineV::Link { text: content, url }, None),
        Err(e) => if strict {
            Err(e)
        } else {
            let text = spec_flatten(content);
            spec_push_fallback_text(st, if text.len() == 0 { url } else { text })
        },
    }
}

/// Closing an element.
pub open spec fn spec_handle_end(strict: bool, st: StateV, kind: TagKind) -> Step {
    let cs = st.containers;
    let is = st.inlines;
    let popped = with_containers(st, cs.drop_last());
    let top = cs.last();
    match kind {
        TagKind::Paragraph => if cs.len() > 0 && top is Paragraph {
            spec_push_block(popped, BlockV::Paragraph(top->Paragraph_0))
        } else {
            Err(invalid("paragraph close without open"@))
        },
        TagKind::Heading => if cs.len() > 0 && top is Heading {
            spec_push_block(popped, BlockV::Heading { level: top->Heading_level, content: top->Heading_content })
        } else {
            Err(invalid("heading close without open"@))
        },
        TagKind::BlockQuote => if cs.len() > 0 && top is BlockQuote {
            spec_push_block(popped, BlockV::BlockQuote(top->BlockQuote_0))
        } else {
            Err(invalid("blockquote close without open"@))
        },
        TagKind::CodeBlock => if cs.len() > 0 && top is CodeBlock {
            spec_push_block(popped, BlockV::CodeBlock { language: top->CodeBlock_language, code: top->CodeBlock_code })
        } else {
            Err(invalid("code block close without open"@))
        },
        TagKind::List => if cs.len() > 0 && top is List {
            spec_push_block(popped, BlockV::List(top->List_0))
        } else {
            Err(invalid("list close without open"@))
        },
        TagKind::Item => if cs.len() > 0 && top is ListItem {
            let rest = cs.drop_last();
            if rest.len() > 0 && rest.last() is List {
                let l = rest.last()->List_0;
                Ok(with_containers(st, rest.update(rest.len() - 1, ContainerV::List(ListBlockV {
                    items: l.items.push(top->ListItem_0),
                    ..l
                }))))
            } else {
                Err(invalid("list item close without list"@))
            }
        } else {
            Err(invalid("list item close without open"@))
        },
        TagKind::Table => if cs.len() > 0 && top is Table {
            spec_push_block(popped, BlockV::Table(top->Table_0))
        } else {
            Err(invalid("table close without open"@))
        },
        TagKind::TableHead => if cs.len() > 0 && top is TableHead {
            let rest = cs.drop_last();
            match spec_last_table(rest) {
                Some(k) => {
                    let t = rest[k]->Table_0;
                    Ok(with_containers(st, rest.update(k, ContainerV::Table(TableBlockV { headers: top->TableHead_0, ..t }))))
                },
                None => Err(invalid("table tag without open table"@)),
            }
        } else {
            Err(invalid("table head close without open"@))
        },
        TagKind::TableRow => if cs.len() > 0 && top is TableRow {
            let rest = cs.drop_last();
            match spec_last_table(rest) {
                Some(k) => {
                    let t = rest[k]->Table_0;
                    Ok(with_containers(st, rest.update(k, ContainerV::Table(TableBlockV { rows: t.rows.push(top->TableRow_0), ..t }))))
                },
                None => Err(invalid("table tag without open table"@)),
            }
        } else {
            Err(invalid("table row close without open"@))
        },
        TagKind::TableCell => if cs.len() > 0 && top is TableCell {
            let rest = cs.drop_last();
            if rest.len() > 0 && rest.last() is TableRow {
                Ok(with_containers(st, rest.update(rest.len() - 1, ContainerV::TableRow(rest.last()->TableRow_0.push(top->TableCell_0)))))
            } else if rest.len() > 0 && rest.last() is TableHead {
                Ok(with_containers(st, rest.update(rest.len() - 1, ContainerV::TableHead(rest.last()->TableHead_0.push(top->TableCell_0)))))
            } else {
                Err(invalid("table cell close without row"@))
            }
        } else {
            Err(invalid("table cell close without open"@))
        },
        TagKind::Emphasis => if is.len() > 0 && is.last() is Emphasis {
            spec_push_inline_or_code(with_inlines(st, is.drop_last()), InlineV::Emphasis(is.last()->Emphasis_0), None)
        } else {
            Err(invalid("emphasis close without open"@))
        },
        TagKind::Strong => if is.len() > 0 && is.last() is Strong {
            spec_push_inline_or_code(with_inlines(st, is.drop_last()), InlineV::Strong(is.last()->Strong_0), None)
        } else {
            Err(invalid("strong close without open"@))
        },
        TagKind::Link => if is.len() > 0 && is.last() is Link {
            spec_close_link(strict, with_inlines(st, is.drop_last()), is.last()->Link_url, is.last()->Link_content)
        } else {
            Err(invalid("link close without open"@))
        },
        TagKind::Image => if is.len() > 0 && is.last() is Image {
            spec_close_image(strict, with_inlines(st, is.drop_last()), is.last()->Image_url, is.last()->Image_title, is.last()->Image_alt)
        } else {
            Err(invalid("image close without open"@))
        },
        _ => Ok(st),
    }
}

/// An event inside content that the parser renders as plain text.
pub open spec fn spec_handle_unsupported(st: StateV, ev: MdEventV) -> Step {
    let f = st.fallback;
    match ev {
        MdEventV::Start(tag) => {
            let f1 = if tag == MdTagV::Plain(TagKind::Item) && f.len() > 0 {
                spec_append_separator(f)
            } else {
                f
            };
            let d1 = if spec_nesting_kind(spec_tag_kind(tag)) { st.depth + 1 } else { st.depth };
            Ok(StateV { fallback: f1, depth: d1, ..st })
        },
        MdEventV::End(kind) => if spec_nesting_kind(kind) {
            let d = (st.depth - 1) as nat;
            if d == 0 {
                let t = spec_trim_trailing(f);
                if t.len() > 0 {
                    spec_push_block(StateV { depth: d, fallback: seq![], ..st }, BlockV::Paragraph(t))
                } else {
                    Ok(StateV { depth: d, fallback: t, ..st })
                }
            } else {
                Ok(StateV { depth: d, ..st })
            }
        } else {
            Ok(st)
        },
        MdEventV::Text(t) => Ok(StateV { fallback: spec_push_merged(f, InlineV::Text(t)), ..st }),
        MdEventV::Code(t) => Ok(StateV { fallback: spec_push_merged(f, InlineV::Text(t)), ..st }),
        MdEventV::Html(t) => Ok(StateV { fallback: spec_push_merged(f, InlineV::Text(t)), ..st }),
        MdEventV::InlineHtml(t) => Ok(StateV { fallback: spec_push_merged(f, InlineV::Text(t)), ..st }),
        MdEventV::InlineMath(t) => Ok(StateV { fallback: spec_push_merged(f, InlineV::Text(t)), ..st }),
        MdEventV::DisplayMath(t) => Ok(StateV { fallback: spec_push_merged(f, InlineV::Text(t)), ..st }),
        MdEventV::SoftBreak => Ok(StateV { fallback: spec_push_merged(f, InlineV::Text(seq![' '])), ..st }),
        MdEventV::HardBreak => Ok(StateV { fallback: f.push(InlineV::HardBreak), ..st }),
        MdEventV::Rule => Ok(StateV { fallback: spec_push_merged(f, InlineV::Text("---"@)), ..st }),
        MdEventV::FootnoteReference(r) => Ok(StateV { fallback: spec_push_merged(f, InlineV::Text(spec_footnote_text(r))), ..st }),
        MdEventV::TaskListMarker(c) => Ok(StateV { fallback: spec_push_merged(f, InlineV::Text(spec_task_marker(c))), ..st }),
    }
}

/// The visible text of a footnote reference.
pub open spec fn spec_footnote_text(label: Seq<char>) -> Seq<char> {
    "[^"@ + label + "]"@
}

/// The visible text of a task list marker.
pub open spec fn spec_task_marker(checked: bool) -> Seq<char> {
    if checked { "[x] "@ } else { "[ ] "@ }
}

/// One event.
pub open spec fn spec_step(strict: bool, st: StateV, ev: MdEventV) -> Step {
    if st.depth > 0 {
        spec_handle_unsupported(st, ev)
    } else {
        match ev {
            MdEventV::Start(tag) => if tag is List && spec_list_depth(st.containers) >= 2 {
                if strict {
                    Err(unsupported("nested list depth > 2"@))
                } else {
                    Ok(StateV { depth: 1, ..st })
                }
            } else {
                match spec_unsupported_block_feature(tag) {
                    Some(feature) => if strict {
                        Err(unsupported(feature))
                    } else {
                        Ok(StateV { depth: 1, ..st })
                    },
                    None => spec_handle_start(strict, st, tag),
                }
            },
            MdEventV::End(kind) => spec_handle_end(strict, st, kind),
            MdEventV::Text(t) => spec_push_inline_or_code(st, InlineV::Text(t), None),
            MdEventV::Code(t) => spec_push_inline_or_code(st, InlineV::Code(t), None),
            MdEventV::SoftBreak => spec_push_inline_or_code(st, InlineV::Text(seq![' ']), Some('\n')),
            MdEventV::HardBreak => spec_push_inline_or_code(st, InlineV::HardBreak, Some('\n')),
            MdEventV::Rule => spec_push_block(st, BlockV::ThematicBreak),
            MdEventV::Html(t) => if strict { Err(unsupported("html"@)) } else { spec_push_fallback_text(st, t) },
            MdEventV::InlineHtml(t) => if strict { Err(unsupported("html"@)) } else { spec_push_fallback_text(st, t) },
            MdEventV::FootnoteReference(r) => if strict {
                Err(unsupported("footnote"@))
            } else {
                spec_push_fallback_text(st, spec_footnote_text(r))
            },
            MdEventV::TaskListMarker(c) => if strict {
                Err(unsupported("task list"@))
            } else {
                spec_push_fallback_text(st, spec_task_marker(c))
            },
            MdEventV::InlineMath(t) => if strict { Err(unsupported("math"@)) } else { spec_push_fallback_text(st, t) },
            MdEventV::DisplayMath(t) => if strict { Err(unsupported("math"@)) } else { spec_push_fallback_text(st, t) },
        }
    }
}

/// The state after a sequence of events, or the first error.
pub open spec fn spec_run(strict: bool, events: Seq<MdEventV>) -> Step
    decreases events.len(),
{
    if events.len() == 0 {
        Ok(initial_state())
    } else {
        match spec_run(strict, events.drop_last()) {
            Ok(st) => spec_step(strict, st, events.last()),
            Err(e) => Err(e),
        }
    }
}

/// The blocks of a document parsed from its events: every element must be closed
/// at the end.
pub open spec fn spec_parse_events(strict: bool, events: Seq<MdEventV>) -> Result<Seq<BlockV>, ErrorV> {
    match spec_run(strict, events) {
        Ok(st) => if st.inlines.len() > 0 || st.containers.len() > 0 {
            Err(invalid("unbalanced markdown structure"@))
        } else {
            Ok(st.blocks)
        },
        Err(e) => Err(e),
    }
}

} // verus!
