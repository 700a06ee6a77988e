//! The compatibility profile of an HWPX package: which reference layout a
//! document matches, by the shape of its blocks and its style.
use vstd::prelude::*;
use crate::generators::hwpx::style::{ResolvedHwpxStyle, ResolvedStyleV, spec_is_default};
use crate::models::block::{Block, BlockV, blocks_view};
use crate::models::document::Document;
use crate::models::inline::{Inline, InlineV, inlines_view};
use crate::utils::text::str_eq;

verus! {

broadcast use crate::models::block::group_view_lemmas;

/// The reference layouts that a package may follow.
#[derive(Debug, Clone, Copy, PartialEq, Eq, Structural)]
pub enum CompatibilityProfile {
    LegacyDefault,
    CoreParagraphFixture,
    CoreParagraph,
    CoreInlineStyle,
    CoreLinkText,
    CoreMixed,
    StyleBrandColor,
    StyleCenteredLayout,
    StyleTypography,
}

/// A set of inline kinds.
#[derive(Debug, Clone, Copy, PartialEq, Eq, Structural)]
pub struct InlineKinds {
    pub text: bool,
    pub emphasis: bool,
    pub strong: bool,
    pub code: bool,
    pub link: bool,
    pub image: bool,
    pub hard_break: bool,
}

pub open spec fn kinds(text: bool, emphasis: bool, strong: bool, code: bool, link: bool, image: bool, hard_break: bool) -> InlineKinds {
    InlineKinds { text, emphasis, strong, code, link, image, hard_break }
}

/// Whether an inline is of one of the kinds.
pub open spec fn inline_in(i: InlineV, k: InlineKinds) -> bool {
    match i {
        InlineV::Text(_) => k.text,
        InlineV::Emphasis(_) => k.emphasis,
        InlineV::Strong(_) => k.strong,
        InlineV::Code(_) => k.code,
        InlineV::Link { .. } => k.link,
        InlineV::Image(_) => k.image,
        InlineV::HardBreak => k.hard_break,
    }
}

/// Whether some inline is of one of the kinds.
pub open spec fn spec_any_inline(s: Seq<InlineV>, k: InlineKinds) -> bool {
    exists|j: int| 0 <= j < s.len() && #[trigger] inline_in(s[j], k)
}

fn any_inline(inlines: &Vec<Inline>, k: InlineKinds) -> (b: bool)
    ensures
        b == spec_any_inline(inlines_view(inlines@), k),
{
    let ghost iv = inlines_view(inlines@);
    let mut i: usize = 0;
    while i < inlines.len()
        invariant
            i <= inlines.len(),
            iv == inlines_view(inlines@),
            forall|j: int| 0 <= j < i ==> !#[trigger] inline_in(iv[j], k),
        decreases inlines.len() - i,
    {
        let hit = match &inlines[i] {
            Inline::Text(_) => k.text,
            Inline::Emphasis(_) => k.emphasis,
            Inline::Strong(_) => k.strong,
            Inline::Code(_) => k.code,
            Inline::Link { .. } => k.link,
            Inline::Image(_) => k.image,
            Inline::HardBreak => k.hard_break,
        };
        assert(iv[i as int] == inlines@[i as int]@);
        assert(hit == inline_in(iv[i as int], k));
        if hit {
            return true;
        }
        i += 1;
    }
    false
}

/// Every inline is plain text.
pub open spec fn spec_is_plain(s: Seq<InlineV>) -> bool {
    !spec_any_inline(s, kinds(false, true, true, true, true, true, true))
}

fn is_plain_inline_slice(inlines: &Vec<Inline>) -> (b: bool)
    ensures
        b == spec_is_plain(inlines_view(inlines@)),
{
    !any_inline(inlines, InlineKinds { text: false, emphasis: true, strong: true, code: true, link: true, image: true, hard_break: true })
}

/// Some inline is emphasis, strong, code or a hard break.
pub open spec fn spec_has_inline_style(s: Seq<InlineV>) -> bool {
    spec_any_inline(s, kinds(false, true, true, true, false, false, true))
}

/// Some inline is emphasis, strong, code or a link.
pub open spec fn spec_has_style_or_link(s: Seq<InlineV>) -> bool {
    spec_any_inline(s, kinds(false, true, true, true, true, false, false))
}

/// Some inline is a link.
pub open spec fn spec_has_link(s: Seq<InlineV>) -> bool {
    spec_any_inline(s, kinds(false, false, false, false, true, false, false))
}

/// The inlines hold strong text, code and a link.
pub open spec fn spec_has_strong_code_and_link(s: Seq<InlineV>) -> bool {
    spec_any_inline(s, kinds(false, false, true, false, false, false, false))
        && spec_any_inline(s, kinds(false, false, false, true, false, false, false))
        && spec_has_link(s)
}

/// The inlines are one link alone.
pub open spec fn spec_is_single_link(s: Seq<InlineV>) -> bool {
    s.len() == 1 && s[0] is Link
}

/// The inlines are one text alone, with that text.
pub open spec fn spec_is_single_text(s: Seq<InlineV>, t: Seq<char>) -> bool {
    s.len() == 1 && s[0] == InlineV::Text(t)
}

/// The two paragraphs of the reference document.
pub open spec fn fixture_first() -> Seq<char> {
    "\u{BE0C}\u{B77C}\u{C6B0}\u{C800}\u{C640} Rust \u{CF54}\u{C5B4}\u{B97C} \u{ACF5}\u{C720}\u{D558}\u{B294} \u{AE30}\u{BCF8} \u{BB38}\u{B2E8}\u{C785}\u{B2C8}\u{B2E4}. \u{BE0C}\u{B77C}\u{C6B0}\u{C800}\u{C640} Rust \u{CF54}\u{C5B4}\u{B97C} \u{ACF5}\u{C720}\u{D558}\u{B294} \u{AE30}\u{BCF8} \u{BB38}\u{B2E8}\u{C785}\u{B2C8}\u{B2E4}. \u{BE0C}\u{B77C}\u{C6B0}\u{C800}\u{C640} Rust \u{CF54}\u{C5B4}\u{B97C} \u{ACF5}\u{C720}\u{D558}\u{B294} \u{AE30}\u{BCF8} \u{BB38}\u{B2E8}\u{C785}\u{B2C8}\u{B2E4}."@
}

pub open spec fn fixture_second() -> Seq<char> {
    "This is Second Contents. This is Second Contents. This is Second Contents. This is Second Contents. This is Second Contents."@
}

pub open spec fn is_h1(b: BlockV) -> bool {
    b matches BlockV::Heading { level, .. } && level == 1
}

/// The profile of a document's blocks in a resolved style. With the default style:
/// the reference paragraphs, a lone link, a lone styled paragraph without links, a
/// lone plain paragraph, or a first-level heading over a styled paragraph and a
/// plain one. With a custom style: a left-aligned heading over a paragraph with
/// strong text, code and a link; a centred heading over two plain paragraphs; a
/// justified heading over a plain paragraph and a lone link. Anything else has the
/// legacy profile.
pub open spec fn spec_profile(bs: Seq<BlockV>, st: ResolvedStyleV) -> CompatibilityProfile {
    if spec_is_default(st) {
        if bs.len() == 2 && bs[0] is Paragraph && bs[1] is Paragraph
            && spec_is_single_text(bs[0]->Paragraph_0, fixture_first())
            && spec_is_single_text(bs[1]->Paragraph_0, fixture_second()) {
            CompatibilityProfile::CoreParagraphFixture
        } else if bs.len() == 1 && bs[0] is Paragraph && spec_is_single_link(bs[0]->Paragraph_0) {
            CompatibilityProfile::CoreLinkText
        } else if bs.len() == 1 && bs[0] is Paragraph && spec_has_inline_style(bs[0]->Paragraph_0)
            && !spec_has_link(bs[0]->Paragraph_0) {
            CompatibilityProfile::CoreInlineStyle
        } else if bs.len() == 1 && bs[0] is Paragraph && spec_is_plain(bs[0]->Paragraph_0) {
            CompatibilityProfile::CoreParagraph
        } else if bs.len() == 3 && is_h1(bs[0]) && bs[1] is Paragraph && bs[2] is Paragraph
            && spec_has_style_or_link(bs[1]->Paragraph_0) && spec_is_plain(bs[2]->Paragraph_0) {
            CompatibilityProfile::CoreMixed
        } else {
            CompatibilityProfile::LegacyDefault
        }
    } else if st.paragraph_align == "LEFT"@ && bs.len() == 2 && is_h1(bs[0]) && bs[1] is Paragraph
        && spec_has_strong_code_and_link(bs[1]->Paragraph_0) {
        CompatibilityProfile::StyleBrandColor
    } else if st.paragraph_align == "CENTER"@ && bs.len() == 3 && is_h1(bs[0]) && bs[1] is Paragraph
        && bs[2] is Paragraph && spec_is_plain(bs[1]->Paragraph_0) && spec_is_plain(bs[2]->Paragraph_0) {
        CompatibilityProfile::StyleCenteredLayout
    } else if st.paragraph_align == "JUSTIFY"@ && bs.len() == 3 && is_h1(bs[0]) && bs[1] is Paragraph
        && bs[2] is Paragraph && spec_is_plain(bs[1]->Paragraph_0) && spec_is_single_link(bs[2]->Paragraph_0) {
        CompatibilityProfile::StyleTypography
    } else {
        CompatibilityProfile::LegacyDefault
    }
}

fn paragraph_of(block: &Block) -> (r: Option<&Vec<Inline>>)
    ensures
        match r {
            Some(s) => block@ == BlockV::Paragraph(inlines_view(s@)),
            None => !(block@ is Paragraph),
        },
{
    match block {
        Block::Paragraph(inlines) => Some(inlines),
        _ => None,
    }
}

fn is_heading_one(block: &Block) -> (b: bool)
    ensures
        b == is_h1(block@),
{
    match block {
        Block::Heading { level, .. } => *level == 1,
        _ => false,
    }
}

fn is_single_link(inlines: &Vec<Inline>) -> (b: bool)
    ensures
        b == spec_is_single_link(inlines_view(inlines@)),
{
    inlines.len() == 1 && match &inlines[0] {
        Inline::Link { .. } => true,
        _ => false,
    }
}

fn is_single_text(inlines: &Vec<Inline>, t: &str) -> (b: bool)
    ensures
        b == spec_is_single_text(inlines_view(inlines@), t@),
{
    if inlines.len() != 1 {
        return false;
    }
    match &inlines[0] {
        Inline::Text(text) => str_eq(text.as_str(), t),
        _ => false,
    }
}

/// The compatibility profile of a document in a resolved style.
pub fn resolve_compatibility_profile(document: &Document, style: &ResolvedHwpxStyle) -> (p: CompatibilityProfile)
    ensures
        p == spec_profile(document@, style@),
{
    let bs = &document.blocks;
    let n = bs.len();
    let strong = InlineKinds { text: false, emphasis: false, strong: true, code: false, link: false, image: false, hard_break: false };
    let code = InlineKinds { text: false, emphasis: false, strong: false, code: true, link: false, image: false, hard_break: false };
    let link = InlineKinds { text: false, emphasis: false, strong: false, code: false, link: true, image: false, hard_break: false };
    let styled = InlineKinds { text: false, emphasis: true, strong: true, code: true, link: false, image: false, hard_break: true };
    let styled_or_link = InlineKinds { text: false, emphasis: true, strong: true, code: true, link: true, image: false, hard_break: false };
    if style.is_default() {
        if n == 2 {
            if let (Some(first), Some(second)) = (paragraph_of(&bs[0]), paragraph_of(&bs[1])) {
                if is_single_text(first, "\u{BE0C}\u{B77C}\u{C6B0}\u{C800}\u{C640} Rust \u{CF54}\u{C5B4}\u{B97C} \u{ACF5}\u{C720}\u{D558}\u{B294} \u{AE30}\u{BCF8} \u{BB38}\u{B2E8}\u{C785}\u{B2C8}\u{B2E4}. \u{BE0C}\u{B77C}\u{C6B0}\u{C800}\u{C640} Rust \u{CF54}\u{C5B4}\u{B97C} \u{ACF5}\u{C720}\u{D558}\u{B294} \u{AE30}\u{BCF8} \u{BB38}\u{B2E8}\u{C785}\u{B2C8}\u{B2E4}. \u{BE0C}\u{B77C}\u{C6B0}\u{C800}\u{C640} Rust \u{CF54}\u{C5B4}\u{B97C} \u{ACF5}\u{C720}\u{D558}\u{B294} \u{AE30}\u{BCF8} \u{BB38}\u{B2E8}\u{C785}\u{B2C8}\u{B2E4}.")
                    && is_single_text(second, "This is Second Contents. This is Second Contents. This is Second Contents. This is Second Contents. This is Second Contents.") {
                    return CompatibilityProfile::CoreParagraphFixture;
                }
            }
        }
        if n == 1 {
            if let Some(inlines) = paragraph_of(&bs[0]) {
                if is_single_link(inlines) {
                    return CompatibilityProfile::CoreLinkText;
                }
                if any_inline(inlines, styled) && !any_inline(inlines, link) {
                    return CompatibilityProfile::CoreInlineStyle;
                }
                if is_plain_inline_slice(inlines) {
                    return CompatibilityProfile::CoreParagraph;
                }
            }
        }
        if n == 3 && is_heading_one(&bs[0]) {
            if let (Some(inlines), Some(trailing)) = (paragraph_of(&bs[1]), paragraph_of(&bs[2])) {
                if any_inline(inlines, styled_or_link) && is_plain_inline_slice(trailing) {
                    return CompatibilityProfile::CoreMixed;
                }
            }
        }
        return CompatibilityProfile::LegacyDefault;
    }
    if str_eq(style.paragraph_align, "LEFT") && n == 2 && is_heading_one(&bs[0]) {
        if let Some(inlines) = paragraph_of(&bs[1]) {
            if any_inline(inlines, strong) && any_inline(inlines, code) && any_inline(inlines, link) {
                return CompatibilityProfile::StyleBrandColor;
            }
        }
    }
    if str_eq(style.paragraph_align, "CENTER") && n == 3 && is_heading_one(&bs[0]) {
        if let (Some(first), Some(second)) = (paragraph_of(&bs[1]), paragraph_of(&bs[2])) {
            if is_plain_inline_slice(first) && is_plain_inline_slice(second) {
                return CompatibilityProfile::StyleCenteredLayout;
            }
        }
    }
    if str_eq(style.paragraph_align, "JUSTIFY") && n == 3 && is_heading_one(&bs[0]) {
        if let (Some(first), Some(second)) = (paragraph_of(&bs[1]), paragraph_of(&bs[2])) {
            if is_plain_inline_slice(first) && is_single_link(second) {
                return CompatibilityProfile::StyleTypography;
            }
        }
    }
    CompatibilityProfile::LegacyDefault
}

} // verus!
