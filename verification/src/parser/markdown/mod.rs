//! The markdown parser: a state machine over the tokenizer's events.
pub mod data_image;
pub mod events;
pub mod machine;
pub mod push;
pub mod source;
pub mod state;

use vstd::prelude::*;
use crate::error::{CoreRsError, ErrorKind, ErrorV};
use crate::models::block::{BlockV, blocks_view};
use crate::models::document::Document;
use crate::models::inline::Inline;
use self::events::{handle_end, handle_start, handle_unsupported_event};
use self::machine::{StateV, spec_parse_events, spec_run, spec_step};
use self::push::{ParseState, push_block, push_fallback_text, push_inline_or_code, step_holds};
use self::source::{MdEvent, MdEventV, MdTag, events_view, markdown_events, spec_markdown_events};
use self::state::{current_list_depth, unsupported_block_feature};
use crate::utils::text::{owned, push_char};

verus! {

broadcast use crate::models::block::group_view_lemmas;

/// What parsing a markdown text gives: the blocks of the document, or the first
/// error.
pub open spec fn spec_parse_markdown(strict: bool, markdown: Seq<char>) -> Result<Seq<BlockV>, ErrorV> {
    spec_parse_events(strict, spec_markdown_events(markdown))
}

/// A failed run stays failed whatever events follow.
pub proof fn lemma_run_err(strict: bool, evs: Seq<MdEventV>, k: int)
    requires
        0 <= k <= evs.len(),
        spec_run(strict, evs.take(k)) is Err,
    ensures
        spec_run(strict, evs) == spec_run(strict, evs.take(k)),
    decreases evs.len(),
{
    if evs.len() == k {
        assert(evs.take(k) == evs);
    } else {
        assert(evs.drop_last().take(k) == evs.take(k));
        lemma_run_err(strict, evs.drop_last(), k);
    }
}

/// One event raises the skip depth by one at most.
pub proof fn lemma_step_depth(strict: bool, st: StateV, ev: MdEventV)
    ensures
        spec_step(strict, st, ev) matches Ok(n) ==> n.depth <= st.depth + 1,
{
}

/// Handles one event of the tokenizer.
pub fn step(strict: bool, st: &mut ParseState, event: MdEvent) -> (r: Result<(), CoreRsError>)
    requires
        old(st).unsupported_depth < usize::MAX,
    ensures
        step_holds(r, final(st)@, spec_step(strict, old(st)@, event@)),
{
    if st.unsupported_depth > 0 {
        return handle_unsupported_event(st, event);
    }
    match event {
        MdEvent::Start(tag) => {
            let is_list = match &tag {
                MdTag::List(_) => true,
                _ => false,
            };
            if is_list && current_list_depth(&st.containers) >= 2 {
                if strict {
                    return Err(CoreRsError::from_str_detail(ErrorKind::UnsupportedFeature, "nested list depth > 2"));
                }
                st.unsupported_depth = 1;
                return Ok(());
            }
            match unsupported_block_feature(&tag) {
                Some(feature) => {
                    if strict {
                        return Err(CoreRsError::from_str_detail(ErrorKind::UnsupportedFeature, feature));
                    }
                    st.unsupported_depth = 1;
                    Ok(())
                },
                None => handle_start(strict, st, tag),
            }
        },
        MdEvent::End(kind) => handle_end(strict, st, kind),
        MdEvent::Text(t) => push_inline_or_code(st, Inline::Text(t), None),
        MdEvent::Code(t) => push_inline_or_code(st, Inline::Code(t), None),
        MdEvent::SoftBreak => {
            let mut sp = String::new();
            push_char(&mut sp, ' ');
            push_inline_or_code(st, Inline::Text(sp), Some('\n'))
        },
        MdEvent::HardBreak => push_inline_or_code(st, Inline::HardBreak, Some('\n')),
        MdEvent::Rule => push_block(st, crate::models::block::Block::ThematicBreak),
        MdEvent::Html(t) | MdEvent::InlineHtml(t) => {
            if strict {
                return Err(CoreRsError::from_str_detail(ErrorKind::UnsupportedFeature, "html"));
            }
            push_fallback_text(st, t)
        },
        MdEvent::FootnoteReference(label) => {
            if strict {
                return Err(CoreRsError::from_str_detail(ErrorKind::UnsupportedFeature, "footnote"));
            }
            push_fallback_text(st, self::events::footnote_text(label.as_str()))
        },
        MdEvent::TaskListMarker(checked) => {
            if strict {
                return Err(CoreRsError::from_str_detail(ErrorKind::UnsupportedFeature, "task list"));
            }
            push_fallback_text(st, self::events::task_marker(checked))
        },
        MdEvent::InlineMath(t) | MdEvent::DisplayMath(t) => {
            if strict {
                return Err(CoreRsError::from_str_detail(ErrorKind::UnsupportedFeature, "math"));
            }
            push_fallback_text(st, t)
        },
    }
}

/// Builds a document from the tokenizer's events.
pub fn parse_events(strict: bool, events: Vec<MdEvent>) -> (r: Result<Document, CoreRsError>)
    ensures
        match spec_parse_events(strict, events_view(events@)) {
            Ok(blocks) => r matches Ok(d) && d@ == blocks,
            Err(e) => r matches Err(x) && x@ == e,
        },
{
    let ghost evs = events_view(events@);
    let n = events.len();
    let mut st = ParseState::new();
    for event in it: events.into_iter()
        invariant
            it.seq() == events@,
            evs == events_view(events@),
            n == events@.len(),
            st.unsupported_depth <= it.index(),
            spec_run(strict, evs.take(it.index() as int)) == Ok::<StateV, ErrorV>(st@),
    {
        let ghost i = it.index() as int;
        let ghost before = st@;
        assert(evs.take(i + 1).drop_last() == evs.take(i));
        assert(evs.take(i + 1).last() == event@);
        proof { lemma_step_depth(strict, before, event@); }
        match step(strict, &mut st, event) {
            Ok(()) => {},
            Err(e) => {
                proof { lemma_run_err(strict, evs, i + 1); }
                return Err(e);
            },
        }
    }
    assert(evs.take(n as int) == evs);
    if st.inline_stack.len() > 0 || st.containers.len() > 0 {
        return Err(CoreRsError::from_str_detail(ErrorKind::InvalidMarkdown, "unbalanced markdown structure"));
    }
    Ok(Document { blocks: st.blocks })
}

/// Parses markdown into the document model.
pub struct MarkdownParser {
    pub strict_mode: bool,
}

impl MarkdownParser {
    /// A parser that fails on what it cannot model (`strict_mode`), or renders it
    /// as plain text.
    pub fn new(strict_mode: bool) -> (p: MarkdownParser)
        ensures
            p.strict_mode == strict_mode,
    {
        MarkdownParser { strict_mode }
    }

    /// Parses a markdown text.
    pub fn parse(&self, markdown: &str) -> (r: Result<Document, CoreRsError>)
        ensures
            match spec_parse_markdown(self.strict_mode, markdown@) {
                Ok(blocks) => r matches Ok(d) && d@ == blocks,
                Err(e) => r matches Err(x) && x@ == e,
            },
    {
        let events = markdown_events(markdown);
        parse_events(self.strict_mode, events)
    }
}

} // verus!
