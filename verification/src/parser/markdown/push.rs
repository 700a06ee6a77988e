//! Where parsed content goes: blocks into containers, inlines into spans.
use vstd::prelude::*;
use crate::error::{CoreRsError, ErrorKind};
use crate::models::block::{Block, blocks_view};
use crate::models::inline::{Inline, InlineV, inlines_view};
use crate::parser::markdown::machine::{
    StateV, Step, spec_append_to_paragraph, spec_push_block, spec_push_fallback_text, spec_push_inline_or_code,
};
use crate::parser::markdown::state::{
    Container, InlineContext, containers_view, contexts_view, push_inline_merged,
};
use crate::utils::text::push_char;

verus! {

broadcast use crate::models::block::group_view_lemmas;

/// The parser's working state.
pub struct ParseState {
    pub blocks: Vec<Block>,
    pub containers: Vec<Container>,
    pub inline_stack: Vec<InlineContext>,
    pub unsupported_depth: usize,
    pub unsupported_content: Vec<Inline>,
    pub image_bytes: usize,
}

impl View for ParseState {
    type V = StateV;

    open spec fn view(&self) -> StateV {
        StateV {
            blocks: blocks_view(self.blocks@),
            containers: containers_view(self.containers@),
            inlines: contexts_view(self.inline_stack@),
            depth: self.unsupported_depth as nat,
            fallback: inlines_view(self.unsupported_content@),
            image_bytes: self.image_bytes as nat,
        }
    }
}

/// The outcome of an exec step agrees with the stated step: the same state, or the
/// same error.
pub open spec fn step_holds(r: Result<(), CoreRsError>, after: StateV, s: Step) -> bool {
    match s {
        Ok(n) => r is Ok && after == n,
        Err(e) => r matches Err(x) && x@ == e,
    }
}

impl ParseState {
    pub fn new() -> (st: ParseState)
        ensures
            st@ == crate::parser::markdown::machine::initial_state(),
    {
        let st = ParseState {
            blocks: Vec::new(),
            containers: Vec::new(),
            inline_stack: Vec::new(),
            unsupported_depth: 0,
            unsupported_content: Vec::new(),
            image_bytes: 0,
        };
        assert(containers_view(st.containers@) =~= Seq::empty());
        assert(contexts_view(st.inline_stack@) =~= Seq::empty());
        assert(inlines_view(st.unsupported_content@) =~= Seq::empty());
        assert(blocks_view(st.blocks@) =~= Seq::empty());
        st
    }
}

/// Puts a finished block into the innermost quote or list item, or at the top level.
pub fn push_block(st: &mut ParseState, block: Block) -> (r: Result<(), CoreRsError>)
    ensures
        step_holds(r, final(st)@, spec_push_block(old(st)@, block@)),
{
    let ghost cs = old(st).containers@;
    match st.containers.pop() {
        None => {
            st.blocks.push(block);
            assert(containers_view(st.containers@) =~= containers_view(cs));
            Ok(())
        },
        Some(Container::BlockQuote(mut quoted)) => {
            quoted.push(block);
            st.containers.push(Container::BlockQuote(quoted));
            assert(containers_view(st.containers@) =~= spec_push_block(old(st)@, block@)->Ok_0.containers);
            Ok(())
        },
        Some(Container::ListItem(mut item)) => {
            item.blocks.push(block);
            st.containers.push(Container::ListItem(item));
            assert(containers_view(st.containers@) =~= spec_push_block(old(st)@, block@)->Ok_0.containers);
            Ok(())
        },
        Some(other) => {
            st.containers.push(other);
            Err(CoreRsError::from_str_detail(ErrorKind::InvalidMarkdown, "block appeared in an invalid container"))
        },
    }
}

/// Adds an inline to the last block where that is a paragraph, else to a new one.
fn append_to_paragraph(blocks: &mut Vec<Block>, inline: Inline)
    ensures
        blocks_view(final(blocks)@) == spec_append_to_paragraph(blocks_view(old(blocks)@), inline@),
{
    let ghost bv = blocks_view(blocks@);
    match blocks.pop() {
        Some(Block::Paragraph(mut content)) => {
            push_inline_merged(&mut content, inline);
            blocks.push(Block::Paragraph(content));
            assert(blocks_view(blocks@) =~= spec_append_to_paragraph(bv, inline@));
        },
        popped => {
            if let Some(b) = popped {
                blocks.push(b);
            }
            assert(blocks_view(blocks@) =~= bv);
            let ghost iv = inline@;
            let mut para: Vec<Inline> = Vec::new();
            para.push(inline);
            assert(inlines_view(para@) =~= seq![iv]);
            blocks.push(Block::Paragraph(para));
            assert(blocks_view(blocks@) =~= spec_append_to_paragraph(bv, iv));
        },
    }
}

/// Puts an inline where it belongs: the innermost span, the open code block, the
/// open text container, or the paragraph of a list item or quote that has no open
/// one; stray text elsewhere becomes a paragraph.
pub fn push_inline_or_code(st: &mut ParseState, inline: Inline, code_break: Option<char>) -> (r: Result<(), CoreRsError>)
    ensures
        step_holds(r, final(st)@, spec_push_inline_or_code(old(st)@, inline@, code_break)),
{
    let ghost old_st = st@;
    let ghost cs = st.containers@;
    let ghost is = st.inline_stack@;
    if let Some(mut ctx) = st.inline_stack.pop() {
        ctx.push(inline);
        st.inline_stack.push(ctx);
        assert(contexts_view(st.inline_stack@) =~= spec_push_inline_or_code(old_st, inline@, code_break)->Ok_0.inlines);
        return Ok(());
    }
    assert(contexts_view(st.inline_stack@) =~= contexts_view(is));
    match st.containers.pop() {
        Some(Container::CodeBlock { language, mut code }) => {
            match inline {
                Inline::Text(text) => code.append(text.as_str()),
                Inline::Code(text) => code.append(text.as_str()),
                Inline::HardBreak => match code_break {
                    Some(c) => push_char(&mut code, c),
                    None => push_char(&mut code, '\n'),
                },
                _ => {
                    return Err(CoreRsError::from_str_detail(ErrorKind::InvalidMarkdown, "invalid inline inside code block"));
                },
            }
            st.containers.push(Container::CodeBlock { language, code });
            assert(containers_view(st.containers@) =~= spec_push_inline_or_code(old_st, inline@, code_break)->Ok_0.containers);
            Ok(())
        },
        Some(Container::Paragraph(mut content)) => {
            push_inline_merged(&mut content, inline);
            st.containers.push(Container::Paragraph(content));
            assert(containers_view(st.containers@) =~= spec_push_inline_or_code(old_st, inline@, code_break)->Ok_0.containers);
            Ok(())
        },
        Some(Container::TableCell(mut content)) => {
            push_inline_merged(&mut content, inline);
            st.containers.push(Container::TableCell(content));
            assert(containers_view(st.containers@) =~= spec_push_inline_or_code(old_st, inline@, code_break)->Ok_0.containers);
            Ok(())
        },
        Some(Container::Heading { level, mut content }) => {
            push_inline_merged(&mut content, inline);
            st.containers.push(Container::Heading { level, content });
            assert(containers_view(st.containers@) =~= spec_push_inline_or_code(old_st, inline@, code_break)->Ok_0.containers);
            Ok(())
        },
        Some(Container::ListItem(mut item)) => {
            append_to_paragraph(&mut item.blocks, inline);
            st.containers.push(Container::ListItem(item));
            assert(containers_view(st.containers@) =~= spec_push_inline_or_code(old_st, inline@, code_break)->Ok_0.containers);
            Ok(())
        },
        Some(Container::BlockQuote(mut quoted)) => {
            append_to_paragraph(&mut quoted, inline);
            st.containers.push(Container::BlockQuote(quoted));
            assert(containers_view(st.containers@) =~= spec_push_inline_or_code(old_st, inline@, code_break)->Ok_0.containers);
            Ok(())
        },
        popped => {
            if let Some(c) = popped {
                st.containers.push(c);
            }
            assert(containers_view(st.containers@) =~= containers_view(cs));
            assert(st@ == old_st);
            match inline {
                Inline::Text(text) => {
                    if text.as_str().is_empty() {
                        Err(CoreRsError::from_str_detail(
                            ErrorKind::InvalidMarkdown,
                            "inline content appeared outside a text container",
                        ))
                    } else {
                        let ghost t = text@;
                        let mut para: Vec<Inline> = Vec::new();
                        para.push(Inline::Text(text));
                        assert(inlines_view(para@) =~= seq![InlineV::Text(t)]);
                        push_block(st, Block::Paragraph(para))
                    }
                },
                Inline::HardBreak => Err(CoreRsError::from_str_detail(
                    ErrorKind::InvalidMarkdown,
                    "hard break appeared outside a text container",
                )),
                _ => Err(CoreRsError::from_str_detail(
                    ErrorKind::InvalidMarkdown,
                    "inline content appeared outside a text container",
                )),
            }
        },
    }
}

/// Puts text that stands in for unmodeled content where text belongs, or into a
/// paragraph of its own.
pub fn push_fallback_text(st: &mut ParseState, text: String) -> (r: Result<(), CoreRsError>)
    ensures
        step_holds(r, final(st)@, spec_push_fallback_text(old(st)@, text@)),
{
    if text.as_str().is_empty() {
        return Ok(());
    }
    let takes_text = match st.containers.last() {
        Some(Container::Paragraph(_)) => true,
        Some(Container::Heading { .. }) => true,
        Some(Container::TableCell(_)) => true,
        Some(Container::CodeBlock { .. }) => true,
        _ => false,
    };
    if st.inline_stack.len() > 0 || takes_text {
        push_inline_or_code(st, Inline::Text(text), None)
    } else {
        let ghost t = text@;
        let mut para: Vec<Inline> = Vec::new();
        para.push(Inline::Text(text));
        assert(inlines_view(para@) =~= seq![InlineV::Text(t)]);
        push_block(st, Block::Paragraph(para))
    }
}

} // verus!
