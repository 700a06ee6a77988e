//! The section of documents that match a compatibility profile: a fixed layout of
//! paragraphs, each with its id, properties, runs and line metrics, rendered the way
//! the reference packages of each profile hold them.
use vstd::prelude::*;
use crate::error::{CoreRsError, ErrorKind, ErrorV, err};
use crate::generators::hwpx::items::{join_strings, spec_join};
use crate::generators::hwpx::profile::CompatibilityProfile;
use crate::generators::hwpx::section::{
    CaretPosition, append_paragraph_open, append_preamble_run, paragraph_open, preamble_run, section_document,
    section_open, set_settings_caret,
};
use crate::generators::hwpx::style::{ResolvedHwpxStyle, ResolvedStyleV};
use crate::models::block::{Block, BlockV, blocks_view};
use crate::models::document::Document;
use crate::models::inline::{Inline, InlineV, inlines_view};
use crate::utils::xml_helper::{escape_attr, escape_text, spec_escape_attr, spec_escape_text};
use crate::utils::text::{
    append_decimal, chars_of, decimal, replace_all, spec_replace, ends_with, owned, push_char, spec_ends_with, spec_starts_with, spec_trim, starts_with, substring, trim,
};

verus! {

broadcast use crate::models::block::group_view_lemmas;

/// What a compat paragraph is: ordinary text, a heading, a lone link, or the empty
/// paragraph that closes some layouts.
#[derive(Debug, Clone, Copy, PartialEq, Eq, Structural)]
pub enum CompatParagraphKind {
    Normal,
    Heading,
    StandaloneLink,
    TerminalEmpty,
}

/// A further line of a paragraph: where its text starts and how far below the
/// first line it stands.
#[derive(Debug, Clone, Copy, PartialEq, Eq, Structural)]
pub struct ExtraLine {
    pub textpos: u32,
    pub vert_offset: u32,
}

/// The line metrics of a paragraph.
#[derive(Debug)]
pub struct ParaMetric {
    pub height: u32,
    pub spacing: u32,
    pub horzpos: u32,
    pub horzsize: u32,
    pub flags: u32,
    pub next_gap: u32,
    pub extra_lines: Vec<ExtraLine>,
}

/// A piece of a run: text, a line break, or the start or end of a highlight.
#[derive(Debug)]
pub enum RunFragment {
    Text(String),
    LineBreak,
    MarkpenBegin { color: String },
    MarkpenEnd,
}

/// A run of a compat paragraph: fragments with one character property, a
/// hyperlink field, or an empty run.
#[derive(Debug)]
pub enum CompatRun {
    Fragments { char_pr: u32, fragments: Vec<RunFragment> },
    Hyperlink {
        char_pr: u32,
        field_begin_id: u64,
        field_id: u64,
        url: String,
        text: String,
        trailing_empty_text: bool,
    },
    Empty { char_pr: u32 },
}

/// A paragraph of a compat section.
#[derive(Debug)]
pub struct CompatParagraph {
    pub id: u64,
    pub para_pr: u32,
    pub style_id: u32,
    pub default_char_pr: u32,
    pub kind: CompatParagraphKind,
    pub runs: Vec<CompatRun>,
    pub metric: ParaMetric,
}

pub struct MetricV {
    pub height: u32,
    pub spacing: u32,
    pub horzpos: u32,
    pub horzsize: u32,
    pub flags: u32,
    pub next_gap: u32,
    pub extra_lines: Seq<ExtraLine>,
}

pub enum FragmentV {
    Text(Seq<char>),
    LineBreak,
    MarkpenBegin(Seq<char>),
    MarkpenEnd,
}

pub enum CompatRunV {
    Fragments(u32, Seq<FragmentV>),
    Hyperlink { char_pr: u32, begin: u64, field: u64, url: Seq<char>, text: Seq<char>, trailing: bool },
    Empty(u32),
}

pub struct CompatParagraphV {
    pub id: u64,
    pub para_pr: u32,
    pub style_id: u32,
    pub default_char_pr: u32,
    pub kind: CompatParagraphKind,
    pub runs: Seq<CompatRunV>,
    pub metric: MetricV,
}

impl View for ParaMetric {
    type V = MetricV;

    open spec fn view(&self) -> MetricV {
        MetricV {
            height: self.height,
            spacing: self.spacing,
            horzpos: self.horzpos,
            horzsize: self.horzsize,
            flags: self.flags,
            next_gap: self.next_gap,
            extra_lines: self.extra_lines@,
        }
    }
}

impl View for RunFragment {
    type V = FragmentV;

    open spec fn view(&self) -> FragmentV {
        match self {
            RunFragment::Text(t) => FragmentV::Text(t@),
            RunFragment::LineBreak => FragmentV::LineBreak,
            RunFragment::MarkpenBegin { color } => FragmentV::MarkpenBegin(color@),
            RunFragment::MarkpenEnd => FragmentV::MarkpenEnd,
        }
    }
}

pub open spec fn fragments_view(s: Seq<RunFragment>) -> Seq<FragmentV> {
    s.map_values(|f: RunFragment| f@)
}

impl View for CompatRun {
    type V = CompatRunV;

    open spec fn view(&self) -> CompatRunV {
        match self {
            CompatRun::Fragments { char_pr, fragments } => CompatRunV::Fragments(*char_pr, fragments_view(fragments@)),
            CompatRun::Hyperlink { char_pr, field_begin_id, field_id, url, text, trailing_empty_text } => CompatRunV::Hyperlink {
                char_pr: *char_pr,
                begin: *field_begin_id,
                field: *field_id,
                url: url@,
                text: text@,
                trailing: *trailing_empty_text,
            },
            CompatRun::Empty { char_pr } => CompatRunV::Empty(*char_pr),
        }
    }
}

pub open spec fn compat_runs_view(s: Seq<CompatRun>) -> Seq<CompatRunV> {
    s.map_values(|r: CompatRun| r@)
}

impl View for CompatParagraph {
    type V = CompatParagraphV;

    open spec fn view(&self) -> CompatParagraphV {
        CompatParagraphV {
            id: self.id,
            para_pr: self.para_pr,
            style_id: self.style_id,
            default_char_pr: self.default_char_pr,
            kind: self.kind,
            runs: compat_runs_view(self.runs@),
            metric: self.metric@,
        }
    }
}

pub open spec fn paragraphs_view(s: Seq<CompatParagraph>) -> Seq<CompatParagraphV> {
    s.map_values(|p: CompatParagraph| p@)
}

pub open spec fn compat_unsupported(detail: Seq<char>) -> ErrorV {
    err(ErrorKind::UnsupportedFeature, detail)
}

/// A link target as the compat layouts write it: with a closing slash.
pub open spec fn compat_path(url: Seq<char>) -> Seq<char> {
    if spec_ends_with(url, "/"@) { url } else { url + "/"@ }
}

pub fn compat_hyperlink_path(url: &str) -> (p: String)
    ensures
        p@ == compat_path(url@),
{
    if ends_with(url, "/") {
        owned(url)
    } else {
        let mut p = owned(url);
        p.append("/");
        p
    }
}

/// The visible text of a link with a given label: the label, or the link target
/// when the label is blank.
pub open spec fn visible_or_path(label: Seq<char>, url: Seq<char>) -> Seq<char> {
    if spec_trim(label).len() == 0 { compat_path(url) } else { label }
}

/// The plain text of inlines: text and code as they are, styled text by its
/// children, links by their visible text, a hard break as a space; an image is
/// refused.
pub open spec fn spec_plain(s: Seq<InlineV>) -> Result<Seq<char>, ErrorV>
    decreases s,
{
    if s.len() == 0 {
        Ok(seq![])
    } else {
        match spec_plain(s.drop_last()) {
            Err(e) => Err(e),
            Ok(x) => match spec_plain_one(s.last()) {
                Err(e) => Err(e),
                Ok(y) => Ok(x + y),
            },
        }
    }
}

pub open spec fn spec_plain_one(i: InlineV) -> Result<Seq<char>, ErrorV>
    decreases i,
{
    match i {
        InlineV::Text(v) => Ok(v),
        InlineV::Emphasis(c) => spec_plain(c),
        InlineV::Strong(c) => spec_plain(c),
        InlineV::Code(c) => Ok(c),
        InlineV::Link { text, url } => match spec_plain(text) {
            Err(e) => Err(e),
            Ok(label) => Ok(visible_or_path(label, url)),
        },
        InlineV::Image(_) => Err(compat_unsupported("images are not supported in compat path"@)),
        InlineV::HardBreak => Ok(seq![' ']),
    }
}

/// The visible text of a link.
pub open spec fn spec_link_visible(text: Seq<InlineV>, url: Seq<char>) -> Result<Seq<char>, ErrorV> {
    match spec_plain(text) {
        Err(e) => Err(e),
        Ok(label) => Ok(visible_or_path(label, url)),
    }
}

proof fn lemma_plain_err(s: Seq<InlineV>, k: int)
    requires
        0 <= k <= s.len(),
        spec_plain(s.take(k)) is Err,
    ensures
        spec_plain(s) == spec_plain(s.take(k)),
    decreases s.len(),
{
    if s.len() == k {
        assert(s.take(k) == s);
    } else {
        assert(s.drop_last().take(k) == s.take(k));
        lemma_plain_err(s.drop_last(), k);
    }
}

/// The plain text of inlines.
pub fn plain_text(inlines: &Vec<Inline>) -> (r: Result<String, CoreRsError>)
    ensures
        match spec_plain(inlines_view(inlines@)) {
            Ok(t) => r matches Ok(x) && x@ == t,
            Err(e) => r matches Err(x) && x@ == e,
        },
    decreases inlines,
{
    let ghost v = inlines_view(inlines@);
    let mut text = String::new();
    let mut i: usize = 0;
    while i < inlines.len()
        invariant
            i <= inlines.len(),
            v == inlines_view(inlines@),
            spec_plain(v.take(i as int)) == Ok::<Seq<char>, ErrorV>(text@),
        decreases inlines.len() - i,
    {
        assert(v.take(i + 1).drop_last() == v.take(i as int));
        assert(v.take(i + 1).last() == inlines@[i as int]@);
        proof {
            assert(decreases_to!(inlines => inlines@));
            assert(decreases_to!(inlines@ => inlines@[i as int]));
        }
        match plain_one(&inlines[i]) {
            Ok(part) => text.append(part.as_str()),
            Err(e) => {
                assert(spec_plain(v.take(i + 1)) == Err::<Seq<char>, ErrorV>(e@));
                proof { lemma_plain_err(v, i + 1); }
                return Err(e);
            },
        }
        i += 1;
    }
    assert(v.take(v.len() as int) == v);
    Ok(text)
}

fn plain_one(inline: &Inline) -> (r: Result<String, CoreRsError>)
    ensures
        match spec_plain_one(inline@) {
            Ok(t) => r matches Ok(x) && x@ == t,
            Err(e) => r matches Err(x) && x@ == e,
        },
    decreases inline,
{
    match inline {
        Inline::Text(value) => Ok(value.clone()),
        Inline::Emphasis(children) => plain_text(children),
        Inline::Strong(children) => plain_text(children),
        Inline::Code(code) => Ok(code.clone()),
        Inline::Link { text, url } => {
            let label = plain_text(text)?;
            Ok(visible_label(label, url.as_str()))
        },
        Inline::Image(_) => Err(CoreRsError::from_str_detail(
            ErrorKind::UnsupportedFeature,
            "images are not supported in compat path",
        )),
        Inline::HardBreak => {
            let mut s = String::new();
            push_char(&mut s, ' ');
            Ok(s)
        },
    }
}

fn visible_label(label: String, url: &str) -> (t: String)
    ensures
        t@ == visible_or_path(label@, url@),
{
    let trimmed = trim(label.as_str());
    if trimmed.as_str().is_empty() {
        compat_hyperlink_path(url)
    } else {
        label
    }
}

/// The visible text of a link: its plain label, or its target when the label is
/// blank.
pub fn link_visible_text(text: &Vec<Inline>, url: &str) -> (r: Result<String, CoreRsError>)
    ensures
        match spec_link_visible(inlines_view(text@), url@) {
            Ok(t) => r matches Ok(x) && x@ == t,
            Err(e) => r matches Err(x) && x@ == e,
        },
{
    let label = plain_text(text)?;
    Ok(visible_label(label, url))
}

/// Appends fragments to the last run when it has the same character property, or
/// as a new run.
pub open spec fn spec_push_fragments(runs: Seq<CompatRunV>, c: u32, fs: Seq<FragmentV>) -> Seq<CompatRunV> {
    if runs.len() > 0 && runs.last() is Fragments && runs.last()->Fragments_0 == c {
        runs.drop_last().push(CompatRunV::Fragments(c, runs.last()->Fragments_1 + fs))
    } else {
        runs.push(CompatRunV::Fragments(c, fs))
    }
}

/// Appends a text fragment, unless the text is empty.
pub open spec fn spec_push_text(runs: Seq<CompatRunV>, c: u32, t: Seq<char>) -> Seq<CompatRunV> {
    if t.len() == 0 { runs } else { spec_push_fragments(runs, c, seq![FragmentV::Text(t)]) }
}

/// Code text between the two ends of a grey highlight.
pub open spec fn markpen_fragments(code: Seq<char>) -> Seq<FragmentV> {
    seq![FragmentV::MarkpenBegin("#F2F2F2"@), FragmentV::Text(code), FragmentV::MarkpenEnd]
}

fn push_fragments(runs: &mut Vec<CompatRun>, char_pr: u32, fragments: Vec<RunFragment>)
    ensures
        compat_runs_view(final(runs)@) == spec_push_fragments(compat_runs_view(old(runs)@), char_pr, fragments_view(fragments@)),
{
    let ghost before = compat_runs_view(runs@);
    let n = runs.len();
    if n > 0 {
        let same = match &runs[n - 1] {
            CompatRun::Fragments { char_pr: c, .. } => *c == char_pr,
            _ => false,
        };
        if same {
            let last = runs.pop().unwrap();
            assert(compat_runs_view(runs@) =~= before.drop_last());
            match last {
                CompatRun::Fragments { char_pr: c, fragments: f } => {
                    let mut f = f;
                    let mut more = fragments;
                    let ghost f0 = f@;
                    let ghost m0 = more@;
                    f.append(&mut more);
                    assert(fragments_view(f@) =~= fragments_view(f0) + fragments_view(m0));
                    runs.push(CompatRun::Fragments { char_pr: c, fragments: f });
                    assert(compat_runs_view(runs@) =~= before.drop_last().push(
                        CompatRunV::Fragments(char_pr, fragments_view(f0) + fragments_view(m0)),
                    ));
                    return;
                },
                _ => {
                    proof { assert(false); }
                    return;
                },
            }
        }
    }
    runs.push(CompatRun::Fragments { char_pr, fragments });
    assert(compat_runs_view(runs@) =~= before.push(CompatRunV::Fragments(char_pr, fragments_view(fragments@))));
}

fn push_text_run(runs: &mut Vec<CompatRun>, char_pr: u32, text: String)
    ensures
        compat_runs_view(final(runs)@) == spec_push_text(compat_runs_view(old(runs)@), char_pr, text@),
{
    if text.as_str().is_empty() {
        return;
    }
    let mut fragments: Vec<RunFragment> = Vec::new();
    fragments.push(RunFragment::Text(text));
    assert(fragments_view(fragments@) =~= seq![FragmentV::Text(text@)]);
    push_fragments(runs, char_pr, fragments);
}

fn push_markpen(runs: &mut Vec<CompatRun>, char_pr: u32, code: String)
    ensures
        compat_runs_view(final(runs)@) == spec_push_fragments(compat_runs_view(old(runs)@), char_pr, markpen_fragments(code@)),
{
    let mut fragments: Vec<RunFragment> = Vec::new();
    fragments.push(RunFragment::MarkpenBegin { color: owned("#F2F2F2") });
    fragments.push(RunFragment::Text(code));
    fragments.push(RunFragment::MarkpenEnd);
    assert(fragments_view(fragments@) =~= markpen_fragments(code@));
    push_fragments(runs, char_pr, fragments);
}

fn push_line_break(runs: &mut Vec<CompatRun>, char_pr: u32)
    ensures
        compat_runs_view(final(runs)@) == spec_push_fragments(compat_runs_view(old(runs)@), char_pr, seq![FragmentV::LineBreak]),
{
    let mut fragments: Vec<RunFragment> = Vec::new();
    fragments.push(RunFragment::LineBreak);
    assert(fragments_view(fragments@) =~= seq![FragmentV::LineBreak]);
    push_fragments(runs, char_pr, fragments);
}

/// The words that end a line before a hard break in the inline style layout.
pub open spec fn break_word() -> Seq<char> {
    " \u{C904}\u{BC14}\u{AFC8}"@
}

/// Text before a hard break loses a trailing line-break word.
pub open spec fn strip_break_word(v: Seq<char>, before_break: bool) -> Seq<char> {
    if before_break && spec_ends_with(v, break_word()) { v.take(v.len() - break_word().len()) } else { v }
}

fn normalize_core_inline_text(value: &str, before_break: bool) -> (t: String)
    ensures
        t@ == strip_break_word(value@, before_break),
{
    let word = " \u{C904}\u{BC14}\u{AFC8}";
    if before_break && ends_with(value, word) {
        let cs = chars_of(value);
        let wl = chars_of(word).len();
        substring(&cs, 0, cs.len() - wl)
    } else {
        owned(value)
    }
}

/// One inline of the inline style layout, given whether a hard break follows it:
/// text in property 5, strong text in 6, emphasis in 7, highlighted code, a line
/// break; links and images are refused.
pub open spec fn spec_inline_style_step(i: InlineV, before_break: bool, runs: Seq<CompatRunV>) -> Result<Seq<CompatRunV>, ErrorV> {
    match i {
        InlineV::Text(v) => Ok(spec_push_text(runs, 5, strip_break_word(v, before_break))),
        InlineV::Strong(c) => match spec_plain(c) {
            Err(e) => Err(e),
            Ok(t) => Ok(spec_push_text(runs, 6, t)),
        },
        InlineV::Emphasis(c) => match spec_plain(c) {
            Err(e) => Err(e),
            Ok(t) => Ok(spec_push_text(runs, 7, t)),
        },
        InlineV::Code(c) => Ok(spec_push_fragments(runs, 5, markpen_fragments(c))),
        InlineV::HardBreak => Ok(spec_push_fragments(runs, 5, seq![FragmentV::LineBreak])),
        _ => Err(compat_unsupported("unexpected inline in CoreInlineStyle"@)),
    }
}

pub open spec fn followed_by_break(s: Seq<InlineV>, k: int) -> bool {
    k + 1 < s.len() && s[k + 1] is HardBreak
}

/// The runs of the first `k` inlines of the inline style layout.
pub open spec fn spec_inline_style_upto(s: Seq<InlineV>, k: nat) -> Result<Seq<CompatRunV>, ErrorV>
    decreases k,
{
    if k == 0 {
        Ok(seq![])
    } else {
        match spec_inline_style_upto(s, (k - 1) as nat) {
            Err(e) => Err(e),
            Ok(runs) => spec_inline_style_step(s[k - 1], followed_by_break(s, k - 1), runs),
        }
    }
}

pub open spec fn spec_inline_style_runs(s: Seq<InlineV>) -> Result<Seq<CompatRunV>, ErrorV> {
    spec_inline_style_upto(s, s.len())
}

proof fn lemma_inline_style_err(s: Seq<InlineV>, k: nat, n: nat)
    requires
        k <= n,
        spec_inline_style_upto(s, k) is Err,
    ensures
        spec_inline_style_upto(s, n) == spec_inline_style_upto(s, k),
    decreases n - k,
{
    if k < n {
        lemma_inline_style_err(s, k, (n - 1) as nat);
    }
}

fn is_hard_break(inline: &Inline) -> (b: bool)
    ensures
        b == (inline@ is HardBreak),
{
    match inline {
        Inline::HardBreak => true,
        _ => false,
    }
}

/// The runs of the inline style layout.
pub fn inline_style_runs(inlines: &Vec<Inline>) -> (r: Result<Vec<CompatRun>, CoreRsError>)
    ensures
        match spec_inline_style_runs(inlines_view(inlines@)) {
            Ok(runs) => r matches Ok(x) && compat_runs_view(x@) == runs,
            Err(e) => r matches Err(x) && x@ == e,
        },
{
    let ghost v = inlines_view(inlines@);
    let mut runs: Vec<CompatRun> = Vec::new();
    let mut index: usize = 0;
    assert(compat_runs_view(runs@) =~= Seq::<CompatRunV>::empty());
    while index < inlines.len()
        invariant
            index <= inlines.len(),
            v == inlines_view(inlines@),
            spec_inline_style_upto(v, index as nat) == Ok::<Seq<CompatRunV>, ErrorV>(compat_runs_view(runs@)),
        decreases inlines.len() - index,
    {
        let before_break = index + 1 < inlines.len() && is_hard_break(&inlines[index + 1]);
        assert(before_break == followed_by_break(v, index as int));
        let ghost st = compat_runs_view(runs@);
        let failed: Option<CoreRsError> = match &inlines[index] {
            Inline::Text(value) => {
                push_text_run(&mut runs, 5, normalize_core_inline_text(value.as_str(), before_break));
                None
            },
            Inline::Strong(children) => match plain_text(children) {
                Ok(t) => {
                    push_text_run(&mut runs, 6, t);
                    None
                },
                Err(e) => Some(e),
            },
            Inline::Emphasis(children) => match plain_text(children) {
                Ok(t) => {
                    push_text_run(&mut runs, 7, t);
                    None
                },
                Err(e) => Some(e),
            },
            Inline::Code(code) => {
                push_markpen(&mut runs, 5, code.clone());
                None
            },
            Inline::HardBreak => {
                push_line_break(&mut runs, 5);
                None
            },
            _ => Some(CoreRsError::from_str_detail(ErrorKind::UnsupportedFeature, "unexpected inline in CoreInlineStyle")),
        };
        match failed {
            Some(e) => {
                assert(spec_inline_style_upto(v, (index + 1) as nat) == Err::<Seq<CompatRunV>, ErrorV>(e@));
                proof { lemma_inline_style_err(v, (index + 1) as nat, v.len()); }
                return Err(e);
            },
            None => {},
        }
        assert(spec_inline_style_upto(v, (index + 1) as nat) == Ok::<Seq<CompatRunV>, ErrorV>(compat_runs_view(runs@)));
        index += 1;
    }
    Ok(runs)
}

/// Whether text starts with a particle that attaches to the word before it.
pub open spec fn starts_with_attached_particle(v: Seq<char>) -> bool {
    spec_starts_with(v, "\u{C640}"@) || spec_starts_with(v, "\u{ACFC}"@) || spec_starts_with(v, "\u{B97C}"@)
        || spec_starts_with(v, "\u{C744}"@) || spec_starts_with(v, "\u{C740}"@) || spec_starts_with(v, "\u{B294}"@)
        || spec_starts_with(v, "\u{C774}"@) || spec_starts_with(v, "\u{AC00}"@) || spec_starts_with(v, "\u{B3C4}"@)
        || spec_starts_with(v, "\u{B9CC}"@) || spec_starts_with(v, "\u{B85C}"@) || spec_starts_with(v, "\u{C73C}\u{B85C}"@)
        || spec_starts_with(v, "\u{C758}"@) || spec_starts_with(v, "\u{C5D0}"@)
}

fn starts_with_attached_postposition(v: &str) -> (b: bool)
    ensures
        b == starts_with_attached_particle(v@),
{
    starts_with(v, "\u{C640}") || starts_with(v, "\u{ACFC}") || starts_with(v, "\u{B97C}")
        || starts_with(v, "\u{C744}") || starts_with(v, "\u{C740}") || starts_with(v, "\u{B294}")
        || starts_with(v, "\u{C774}") || starts_with(v, "\u{AC00}") || starts_with(v, "\u{B3C4}")
        || starts_with(v, "\u{B9CC}") || starts_with(v, "\u{B85C}") || starts_with(v, "\u{C73C}\u{B85C}")
        || starts_with(v, "\u{C758}") || starts_with(v, "\u{C5D0}")
}

/// Text after styled text or a link loses its leading space when a particle
/// follows it.
pub open spec fn normalize_mixed(v: Seq<char>, after_styled: bool) -> Seq<char> {
    if after_styled && v.len() > 0 && v[0] == ' ' && starts_with_attached_particle(v.drop_first()) {
        v.drop_first()
    } else {
        v
    }
}

fn normalize_core_mixed_text(value: &str, after_styled: bool) -> (t: String)
    ensures
        t@ == normalize_mixed(value@, after_styled),
{
    if !after_styled {
        return owned(value);
    }
    let cs = chars_of(value);
    if cs.len() == 0 || cs[0] != ' ' {
        return owned(value);
    }
    let rest = substring(&cs, 1, cs.len());
    assert(rest@ =~= value@.drop_first());
    if starts_with_attached_postposition(rest.as_str()) {
        rest
    } else {
        owned(value)
    }
}

/// The hyperlink run of the mixed layout.
pub open spec fn mixed_link_run(url: Seq<char>, text: Seq<char>) -> CompatRunV {
    CompatRunV::Hyperlink { char_pr: 9, begin: 2107509839, field: 627600491, url: compat_path(url), text, trailing: false }
}

/// One inline of the mixed layout, with whether styled text or a link came just
/// before: text in property 5, strong text in 7, emphasis in 8, highlighted code,
/// a hyperlink field; hard breaks and images are refused.
pub open spec fn spec_mixed_step(i: InlineV, runs: Seq<CompatRunV>, after_styled: bool) -> Result<(Seq<CompatRunV>, bool), ErrorV> {
    match i {
        InlineV::Text(v) => Ok((spec_push_text(runs, 5, normalize_mixed(v, after_styled)), false)),
        InlineV::Strong(c) => match spec_plain(c) {
            Err(e) => Err(e),
            Ok(t) => Ok((spec_push_text(runs, 7, t), true)),
        },
        InlineV::Emphasis(c) => match spec_plain(c) {
            Err(e) => Err(e),
            Ok(t) => Ok((spec_push_text(runs, 8, t), true)),
        },
        InlineV::Code(c) => Ok((spec_push_fragments(runs, 5, markpen_fragments(c)), true)),
        InlineV::Link { text, url } => match spec_link_visible(text, url) {
            Err(e) => Err(e),
            Ok(t) => Ok((runs.push(mixed_link_run(url, t)), true)),
        },
        _ => Err(compat_unsupported("unexpected inline in CoreMixed"@)),
    }
}

pub open spec fn spec_mixed_upto(s: Seq<InlineV>, k: nat) -> Result<(Seq<CompatRunV>, bool), ErrorV>
    decreases k,
{
    if k == 0 {
        Ok((seq![], false))
    } else {
        match spec_mixed_upto(s, (k - 1) as nat) {
            Err(e) => Err(e),
            Ok(st) => spec_mixed_step(s[k - 1], st.0, st.1),
        }
    }
}

pub open spec fn spec_mixed_runs(s: Seq<InlineV>) -> Result<Seq<CompatRunV>, ErrorV> {
    match spec_mixed_upto(s, s.len()) {
        Err(e) => Err(e),
        Ok(st) => Ok(st.0),
    }
}

proof fn lemma_mixed_err(s: Seq<InlineV>, k: nat, n: nat)
    requires
        k <= n,
        spec_mixed_upto(s, k) is Err,
    ensures
        spec_mixed_upto(s, n) == spec_mixed_upto(s, k),
    decreases n - k,
{
    if k < n {
        lemma_mixed_err(s, k, (n - 1) as nat);
    }
}

/// The runs of the mixed layout.
pub fn mixed_runs(inlines: &Vec<Inline>) -> (r: Result<Vec<CompatRun>, CoreRsError>)
    ensures
        match spec_mixed_runs(inlines_view(inlines@)) {
            Ok(runs) => r matches Ok(x) && compat_runs_view(x@) == runs,
            Err(e) => r matches Err(x) && x@ == e,
        },
{
    let ghost v = inlines_view(inlines@);
    let mut runs: Vec<CompatRun> = Vec::new();
    let mut after_styled = false;
    let mut index: usize = 0;
    assert(compat_runs_view(runs@) =~= Seq::<CompatRunV>::empty());
    while index < inlines.len()
        invariant
            index <= inlines.len(),
            v == inlines_view(inlines@),
            spec_mixed_upto(v, index as nat) == Ok::<(Seq<CompatRunV>, bool), ErrorV>((compat_runs_view(runs@), after_styled)),
        decreases inlines.len() - index,
    {
        let ghost st = compat_runs_view(runs@);
        let failed: Option<CoreRsError> = match &inlines[index] {
            Inline::Text(value) => {
                push_text_run(&mut runs, 5, normalize_core_mixed_text(value.as_str(), after_styled));
                after_styled = false;
                None
            },
            Inline::Strong(children) => match plain_text(children) {
                Ok(t) => {
                    push_text_run(&mut runs, 7, t);
                    after_styled = true;
                    None
                },
                Err(e) => Some(e),
            },
            Inline::Emphasis(children) => match plain_text(children) {
                Ok(t) => {
                    push_text_run(&mut runs, 8, t);
                    after_styled = true;
                    None
                },
                Err(e) => Some(e),
            },
            Inline::Code(code) => {
                push_markpen(&mut runs, 5, code.clone());
                after_styled = true;
                None
            },
            Inline::Link { text, url } => match link_visible_text(text, url.as_str()) {
                Ok(t) => {
                    runs.push(CompatRun::Hyperlink {
                        char_pr: 9,
                        field_begin_id: 2107509839,
                        field_id: 627600491,
                        url: compat_hyperlink_path(url.as_str()),
                        text: t,
                        trailing_empty_text: false,
                    });
                    assert(compat_runs_view(runs@) =~= st.push(mixed_link_run(url@, t@)));
                    after_styled = true;
                    None
                },
                Err(e) => Some(e),
            },
            _ => Some(CoreRsError::from_str_detail(ErrorKind::UnsupportedFeature, "unexpected inline in CoreMixed")),
        };
        match failed {
            Some(e) => {
                assert(spec_mixed_upto(v, (index + 1) as nat) == Err::<(Seq<CompatRunV>, bool), ErrorV>(e@));
                proof { lemma_mixed_err(v, (index + 1) as nat, v.len()); }
                return Err(e);
            },
            None => {},
        }
        index += 1;
    }
    Ok(runs)
}

/// Sixty percent of a line height: the spacing below a line of that height.
pub open spec fn spacing_for(height: u32) -> u32 {
    ((height as nat * 60) / 100) as u32
}

/// Eighty-five percent of a line height: the baseline of a line of that height.
pub open spec fn baseline_for(height: u32) -> u32 {
    ((height as nat * 85) / 100) as u32
}

fn spacing_of(height: u32) -> (r: u32)
    ensures
        r == spacing_for(height),
{
    ((height as u64 * 60) / 100) as u32
}

fn baseline_of(height: u32) -> (r: u32)
    ensures
        r == baseline_for(height),
{
    ((height as u64 * 85) / 100) as u32
}

/// The metrics of a body paragraph.
pub open spec fn body_metric_v(height: u32, spacing: u32, next_gap: u32) -> MetricV {
    MetricV { height, spacing, horzpos: 0, horzsize: 42520, flags: 393216, next_gap, extra_lines: seq![] }
}

/// The metrics of a heading.
pub open spec fn heading_metric_v(height: u32) -> MetricV {
    MetricV {
        height,
        spacing: spacing_for(height),
        horzpos: 1000,
        horzsize: 41520,
        flags: 2490368,
        next_gap: 0,
        extra_lines: seq![],
    }
}

/// The metrics of the inline style paragraph, which wraps onto a second line.
pub open spec fn inline_style_metric_v() -> MetricV {
    MetricV {
        height: 1000,
        spacing: 600,
        horzpos: 0,
        horzsize: 42520,
        flags: 393216,
        next_gap: 0,
        extra_lines: seq![ExtraLine { textpos: 29, vert_offset: 1600 }],
    }
}

fn body_metric(height: u32, spacing: u32, next_gap: u32) -> (m: ParaMetric)
    ensures
        m@ == body_metric_v(height, spacing, next_gap),
{
    let m = ParaMetric { height, spacing, horzpos: 0, horzsize: 42520, flags: 393216, next_gap, extra_lines: Vec::new() };
    assert(m@.extra_lines =~= Seq::<ExtraLine>::empty());
    m
}

fn heading_metric(height: u32) -> (m: ParaMetric)
    ensures
        m@ == heading_metric_v(height),
{
    let m = ParaMetric {
        height,
        spacing: spacing_of(height),
        horzpos: 1000,
        horzsize: 41520,
        flags: 2490368,
        next_gap: 0,
        extra_lines: Vec::new(),
    };
    assert(m@.extra_lines =~= Seq::<ExtraLine>::empty());
    m
}

/// A paragraph of the given fields.
pub open spec fn para_v(
    id: u64,
    para_pr: u32,
    style_id: u32,
    default_char_pr: u32,
    kind: CompatParagraphKind,
    runs: Seq<CompatRunV>,
    metric: MetricV,
) -> CompatParagraphV {
    CompatParagraphV { id, para_pr, style_id, default_char_pr, kind, runs, metric }
}

/// One run that holds a text.
pub open spec fn text_run_v(c: u32, t: Seq<char>) -> Seq<CompatRunV> {
    seq![CompatRunV::Fragments(c, seq![FragmentV::Text(t)])]
}

fn text_runs(char_pr: u32, text: String) -> (r: Vec<CompatRun>)
    ensures
        compat_runs_view(r@) == text_run_v(char_pr, text@),
{
    let mut fragments: Vec<RunFragment> = Vec::new();
    fragments.push(RunFragment::Text(text));
    assert(fragments_view(fragments@) =~= seq![FragmentV::Text(text@)]);
    let mut r: Vec<CompatRun> = Vec::new();
    r.push(CompatRun::Fragments { char_pr, fragments });
    assert(compat_runs_view(r@) =~= text_run_v(char_pr, text@));
    r
}

fn empty_runs(char_pr: u32) -> (r: Vec<CompatRun>)
    ensures
        compat_runs_view(r@) == seq![CompatRunV::Empty(char_pr)],
{
    let mut r: Vec<CompatRun> = Vec::new();
    r.push(CompatRun::Empty { char_pr });
    assert(compat_runs_view(r@) =~= seq![CompatRunV::Empty(char_pr)]);
    r
}

/// The standalone hyperlink run of a link paragraph.
pub open spec fn standalone_run_v(begin: u64, url: Seq<char>, text: Seq<char>) -> Seq<CompatRunV> {
    seq![CompatRunV::Hyperlink { char_pr: 6, begin, field: 627600491, url, text, trailing: true }]
}

fn standalone_runs(begin: u64, url: String, text: String) -> (r: Vec<CompatRun>)
    ensures
        compat_runs_view(r@) == standalone_run_v(begin, url@, text@),
{
    let mut r: Vec<CompatRun> = Vec::new();
    r.push(CompatRun::Hyperlink {
        char_pr: 6,
        field_begin_id: begin,
        field_id: 627600491,
        url,
        text,
        trailing_empty_text: true,
    });
    assert(compat_runs_view(r@) =~= standalone_run_v(begin, url@, text@));
    r
}

/// The visible text and target of a paragraph that holds a single link; any other
/// paragraph is refused.
pub open spec fn spec_standalone_link(s: Seq<InlineV>) -> Result<(Seq<char>, Seq<char>), ErrorV> {
    if s.len() == 1 && s[0] is Link {
        match spec_link_visible(s[0]->Link_text, s[0]->Link_url) {
            Err(e) => Err(e),
            Ok(t) => Ok((t, compat_path(s[0]->Link_url))),
        }
    } else {
        Err(compat_unsupported("expected standalone link paragraph"@))
    }
}

fn standalone_link_text_and_url(inlines: &Vec<Inline>) -> (r: Result<(String, String), CoreRsError>)
    ensures
        match spec_standalone_link(inlines_view(inlines@)) {
            Ok(p) => r matches Ok(x) && x.0@ == p.0 && x.1@ == p.1,
            Err(e) => r matches Err(x) && x@ == e,
        },
{
    if inlines.len() == 1 {
        match &inlines[0] {
            Inline::Link { text, url } => {
                let t = link_visible_text(text, url.as_str())?;
                return Ok((t, compat_hyperlink_path(url.as_str())));
            },
            _ => {},
        }
    }
    Err(CoreRsError::from_str_detail(ErrorKind::UnsupportedFeature, "expected standalone link paragraph"))
}

pub open spec fn one_paragraph(bs: Seq<BlockV>) -> bool {
    bs.len() == 1 && bs[0] is Paragraph
}

pub open spec fn heading_and_two_paragraphs(bs: Seq<BlockV>) -> bool {
    bs.len() == 3 && bs[0] is Heading && bs[1] is Paragraph && bs[2] is Paragraph
}

/// The paragraphs of a document in a compatibility profile. Each profile expects
/// its block shape (one paragraph; or a heading and two paragraphs) and refuses
/// any other; the two profiles whose sections are fixed texts, and the legacy
/// profile, have no paragraphs here.
pub open spec fn spec_collect_paragraphs(bs: Seq<BlockV>, p: CompatibilityProfile, st: ResolvedStyleV) -> Result<Seq<CompatParagraphV>, ErrorV> {
    let body = st.body_font_size;
    match p {
        CompatibilityProfile::CoreParagraphFixture => Err(compat_unsupported("core-paragraph fixture uses exact compat templates"@)),
        CompatibilityProfile::StyleBrandColor => Err(compat_unsupported("style-brand-color uses exact compat templates"@)),
        CompatibilityProfile::LegacyDefault => Err(compat_unsupported("legacy profile must use the default section renderer"@)),
        CompatibilityProfile::CoreParagraph => if !one_paragraph(bs) {
            Err(compat_unsupported("unexpected CoreParagraph shape"@))
        } else {
            match spec_plain(bs[0]->Paragraph_0) {
                Err(e) => Err(e),
                Ok(t) => Ok(seq![para_v(2757524817, 0, 0, 5, CompatParagraphKind::Normal, text_run_v(5, t), body_metric_v(1000, 600, 0))]),
            }
        },
        CompatibilityProfile::CoreInlineStyle => if !one_paragraph(bs) {
            Err(compat_unsupported("unexpected CoreInlineStyle shape"@))
        } else {
            match spec_inline_style_runs(bs[0]->Paragraph_0) {
                Err(e) => Err(e),
                Ok(runs) => Ok(seq![para_v(2757524817, 0, 0, 5, CompatParagraphKind::Normal, runs, inline_style_metric_v())]),
            }
        },
        CompatibilityProfile::CoreLinkText => if !one_paragraph(bs) {
            Err(compat_unsupported("unexpected CoreLinkText shape"@))
        } else {
            match spec_standalone_link(bs[0]->Paragraph_0) {
                Err(e) => Err(e),
                Ok(link) => Ok(seq![
                    para_v(2757524817, 19, 0, 6, CompatParagraphKind::StandaloneLink, standalone_run_v(2107483186, link.1, link.0), body_metric_v(1000, 200, 1200)),
                    para_v(2147483648, 0, 0, 7, CompatParagraphKind::TerminalEmpty, seq![CompatRunV::Empty(7)], body_metric_v(1000, 600, 0)),
                ]),
            }
        },
        CompatibilityProfile::CoreMixed => if !heading_and_two_paragraphs(bs) {
            Err(compat_unsupported("unexpected CoreMixed shape"@))
        } else {
            match spec_plain(bs[0]->Heading_content) {
                Err(e) => Err(e),
                Ok(h) => match spec_mixed_runs(bs[1]->Paragraph_0) {
                    Err(e) => Err(e),
                    Ok(runs) => match spec_plain(bs[2]->Paragraph_0) {
                        Err(e) => Err(e),
                        Ok(tr) => Ok(seq![
                            para_v(1033768010, 2, 2, 6, CompatParagraphKind::Heading, text_run_v(6, h), heading_metric_v(st.heading_sizes[0])),
                            para_v(3181251661, 0, 0, 5, CompatParagraphKind::Normal, runs, body_metric_v(1000, 600, 0)),
                            para_v(0, 0, 0, 5, CompatParagraphKind::Normal, text_run_v(5, tr), body_metric_v(1000, 600, 0)),
                        ]),
                    },
                },
            }
        },
        CompatibilityProfile::StyleCenteredLayout => if !heading_and_two_paragraphs(bs) {
            Err(compat_unsupported("unexpected StyleCenteredLayout shape"@))
        } else {
            match spec_plain(bs[0]->Heading_content) {
                Err(e) => Err(e),
                Ok(h) => match spec_plain(bs[1]->Paragraph_0) {
                    Err(e) => Err(e),
                    Ok(first) => match spec_plain(bs[2]->Paragraph_0) {
                        Err(e) => Err(e),
                        Ok(second) => Ok(seq![
                            para_v(1033760959, 2, 2, 6, CompatParagraphKind::Heading, text_run_v(6, h), heading_metric_v(st.heading_sizes[0])),
                            para_v(3181244608, 0, 0, 5, CompatParagraphKind::Normal, text_run_v(5, first), body_metric_v(body, spacing_for(body), 0)),
                            para_v(0, 0, 0, 5, CompatParagraphKind::Normal, text_run_v(5, second), body_metric_v(body, spacing_for(body), 0)),
                            para_v(0, 0, 0, 5, CompatParagraphKind::TerminalEmpty, seq![CompatRunV::Empty(5)], body_metric_v(body, spacing_for(body), 0)),
                        ]),
                    },
                },
            }
        },
        CompatibilityProfile::StyleTypography => if !heading_and_two_paragraphs(bs) {
            Err(compat_unsupported("unexpected StyleTypography shape"@))
        } else {
            match spec_standalone_link(bs[2]->Paragraph_0) {
                Err(e) => Err(e),
                Ok(link) => match spec_plain(bs[0]->Heading_content) {
                    Err(e) => Err(e),
                    Ok(h) => match spec_plain(bs[1]->Paragraph_0) {
                        Err(e) => Err(e),
                        Ok(text) => Ok(seq![
                            para_v(1033759294, 2, 2, 7, CompatParagraphKind::Heading, text_run_v(7, h), heading_metric_v(st.heading_sizes[0])),
                            para_v(3181242946, 0, 0, 5, CompatParagraphKind::Normal, text_run_v(5, text), body_metric_v(body, spacing_for(body), 0)),
                            para_v(2757524819, 19, 0, 6, CompatParagraphKind::StandaloneLink, standalone_run_v(2107501120, link.1, link.0), body_metric_v(body, 224, 1200)),
                            para_v(2147483648, 0, 0, 8, CompatParagraphKind::TerminalEmpty, seq![CompatRunV::Empty(8)], body_metric_v(body, spacing_for(body), 0)),
                        ]),
                    },
                },
            }
        },
    }
}

fn paragraph_inlines(block: &Block) -> (r: Option<&Vec<Inline>>)
    ensures
        match r {
            Some(s) => block@ is Paragraph && block@->Paragraph_0 == inlines_view(s@),
            None => !(block@ is Paragraph),
        },
{
    match block {
        Block::Paragraph(inlines) => Some(inlines),
        _ => None,
    }
}

fn heading_inlines(block: &Block) -> (r: Option<&Vec<Inline>>)
    ensures
        match r {
            Some(s) => block@ is Heading && block@->Heading_content == inlines_view(s@),
            None => !(block@ is Heading),
        },
{
    match block {
        Block::Heading { content, .. } => Some(content),
        _ => None,
    }
}

fn compat_paragraph(
    id: u64,
    para_pr: u32,
    style_id: u32,
    default_char_pr: u32,
    kind: CompatParagraphKind,
    runs: Vec<CompatRun>,
    metric: ParaMetric,
) -> (p: CompatParagraph)
    ensures
        p@ == para_v(id, para_pr, style_id, default_char_pr, kind, compat_runs_view(runs@), metric@),
{
    CompatParagraph { id, para_pr, style_id, default_char_pr, kind, runs, metric }
}

fn unsupported(detail: &str) -> (e: CoreRsError)
    ensures
        e@ == compat_unsupported(detail@),
{
    CoreRsError::from_str_detail(ErrorKind::UnsupportedFeature, detail)
}

/// The paragraphs of a document in a compatibility profile.
pub fn collect_paragraphs(document: &Document, profile: CompatibilityProfile, style: &ResolvedHwpxStyle) -> (r: Result<Vec<CompatParagraph>, CoreRsError>)
    ensures
        match spec_collect_paragraphs(document@, profile, style@) {
            Ok(ps) => r matches Ok(x) && paragraphs_view(x@) == ps,
            Err(e) => r matches Err(x) && x@ == e,
        },
{
    let blocks = &document.blocks;
    let ghost bs = document@;
    assert(bs == blocks_view(blocks@));
    let body = style.body_font_size;
    match profile {
        CompatibilityProfile::CoreParagraphFixture => Err(unsupported("core-paragraph fixture uses exact compat templates")),
        CompatibilityProfile::StyleBrandColor => Err(unsupported("style-brand-color uses exact compat templates")),
        CompatibilityProfile::LegacyDefault => Err(unsupported("legacy profile must use the default section renderer")),
        CompatibilityProfile::CoreParagraph => {
            let inlines = if blocks.len() == 1 { paragraph_inlines(&blocks[0]) } else { None };
            let inlines = match inlines {
                Some(i) => i,
                None => return Err(unsupported("unexpected CoreParagraph shape")),
            };
            let t = plain_text(inlines)?;
            let mut out: Vec<CompatParagraph> = Vec::new();
            out.push(compat_paragraph(2757524817, 0, 0, 5, CompatParagraphKind::Normal, text_runs(5, t), body_metric(1000, 600, 0)));
            assert(paragraphs_view(out@) =~= spec_collect_paragraphs(bs, profile, style@)->Ok_0);
            Ok(out)
        },
        CompatibilityProfile::CoreInlineStyle => {
            let inlines = if blocks.len() == 1 { paragraph_inlines(&blocks[0]) } else { None };
            let inlines = match inlines {
                Some(i) => i,
                None => return Err(unsupported("unexpected CoreInlineStyle shape")),
            };
            let runs = inline_style_runs(inlines)?;
            let mut extra: Vec<ExtraLine> = Vec::new();
            extra.push(ExtraLine { textpos: 29, vert_offset: 1600 });
            let metric = ParaMetric { height: 1000, spacing: 600, horzpos: 0, horzsize: 42520, flags: 393216, next_gap: 0, extra_lines: extra };
            assert(metric@.extra_lines =~= inline_style_metric_v().extra_lines);
            let mut out: Vec<CompatParagraph> = Vec::new();
            out.push(compat_paragraph(2757524817, 0, 0, 5, CompatParagraphKind::Normal, runs, metric));
            assert(paragraphs_view(out@) =~= spec_collect_paragraphs(bs, profile, style@)->Ok_0);
            Ok(out)
        },
        CompatibilityProfile::CoreLinkText => {
            let inlines = if blocks.len() == 1 { paragraph_inlines(&blocks[0]) } else { None };
            let inlines = match inlines {
                Some(i) => i,
                None => return Err(unsupported("unexpected CoreLinkText shape")),
            };
            let (text, url) = standalone_link_text_and_url(inlines)?;
            let mut out: Vec<CompatParagraph> = Vec::new();
            out.push(compat_paragraph(2757524817, 19, 0, 6, CompatParagraphKind::StandaloneLink, standalone_runs(2107483186, url, text), body_metric(1000, 200, 1200)));
            out.push(compat_paragraph(2147483648, 0, 0, 7, CompatParagraphKind::TerminalEmpty, empty_runs(7), body_metric(1000, 600, 0)));
            assert(paragraphs_view(out@) =~= spec_collect_paragraphs(bs, profile, style@)->Ok_0);
            Ok(out)
        },
        CompatibilityProfile::CoreMixed => {
            let shape = if blocks.len() == 3 {
                match (heading_inlines(&blocks[0]), paragraph_inlines(&blocks[1]), paragraph_inlines(&blocks[2])) {
                    (Some(h), Some(a), Some(b)) => Some((h, a, b)),
                    _ => None,
                }
            } else {
                None
            };
            let (heading, inlines, trailing) = match shape {
                Some(x) => x,
                None => return Err(unsupported("unexpected CoreMixed shape")),
            };
            let h = plain_text(heading)?;
            let runs = mixed_runs(inlines)?;
            let tr = plain_text(trailing)?;
            let mut out: Vec<CompatParagraph> = Vec::new();
            out.push(compat_paragraph(1033768010, 2, 2, 6, CompatParagraphKind::Heading, text_runs(6, h), heading_metric(style.heading_sizes[0])));
            out.push(compat_paragraph(3181251661, 0, 0, 5, CompatParagraphKind::Normal, runs, body_metric(1000, 600, 0)));
            out.push(compat_paragraph(0, 0, 0, 5, CompatParagraphKind::Normal, text_runs(5, tr), body_metric(1000, 600, 0)));
            assert(paragraphs_view(out@) =~= spec_collect_paragraphs(bs, profile, style@)->Ok_0);
            Ok(out)
        },
        CompatibilityProfile::StyleCenteredLayout => {
            let shape = if blocks.len() == 3 {
                match (heading_inlines(&blocks[0]), paragraph_inlines(&blocks[1]), paragraph_inlines(&blocks[2])) {
                    (Some(h), Some(a), Some(b)) => Some((h, a, b)),
                    _ => None,
                }
            } else {
                None
            };
            let (heading, first, second) = match shape {
                Some(x) => x,
                None => return Err(unsupported("unexpected StyleCenteredLayout shape")),
            };
            let h = plain_text(heading)?;
            let a = plain_text(first)?;
            let b = plain_text(second)?;
            let sp = spacing_of(body);
            let mut out: Vec<CompatParagraph> = Vec::new();
            out.push(compat_paragraph(1033760959, 2, 2, 6, CompatParagraphKind::Heading, text_runs(6, h), heading_metric(style.heading_sizes[0])));
            out.push(compat_paragraph(3181244608, 0, 0, 5, CompatParagraphKind::Normal, text_runs(5, a), body_metric(body, sp, 0)));
            out.push(compat_paragraph(0, 0, 0, 5, CompatParagraphKind::Normal, text_runs(5, b), body_metric(body, sp, 0)));
            out.push(compat_paragraph(0, 0, 0, 5, CompatParagraphKind::TerminalEmpty, empty_runs(5), body_metric(body, sp, 0)));
            assert(paragraphs_view(out@) =~= spec_collect_paragraphs(bs, profile, style@)->Ok_0);
            Ok(out)
        },
        CompatibilityProfile::StyleTypography => {
            let shape = if blocks.len() == 3 {
                match (heading_inlines(&blocks[0]), paragraph_inlines(&blocks[1]), paragraph_inlines(&blocks[2])) {
                    (Some(h), Some(a), Some(b)) => Some((h, a, b)),
                    _ => None,
                }
            } else {
                None
            };
            let (heading, text_block, link_block) = match shape {
                Some(x) => x,
                None => return Err(unsupported("unexpected StyleTypography shape")),
            };
            let (text, url) = standalone_link_text_and_url(link_block)?;
            let h = plain_text(heading)?;
            let b = plain_text(text_block)?;
            let sp = spacing_of(body);
            let mut out: Vec<CompatParagraph> = Vec::new();
            out.push(compat_paragraph(1033759294, 2, 2, 7, CompatParagraphKind::Heading, text_runs(7, h), heading_metric(style.heading_sizes[0])));
            out.push(compat_paragraph(3181242946, 0, 0, 5, CompatParagraphKind::Normal, text_runs(5, b), body_metric(body, sp, 0)));
            out.push(compat_paragraph(2757524819, 19, 0, 6, CompatParagraphKind::StandaloneLink, standalone_runs(2107501120, url, text), body_metric(body, 224, 1200)));
            out.push(compat_paragraph(2147483648, 0, 0, 8, CompatParagraphKind::TerminalEmpty, empty_runs(8), body_metric(body, sp, 0)));
            assert(paragraphs_view(out@) =~= spec_collect_paragraphs(bs, profile, style@)->Ok_0);
            Ok(out)
        },
    }
}

/// The fixed parts of the profiles whose packages are reference texts: the section
/// and preview of the reference paragraphs and of the brand color layout.
#[derive(Debug, Clone)]
pub struct CompatSectionTemplates {
    pub core_paragraph_section: String,
    pub core_paragraph_preview: String,
    pub style_brand_color_section: String,
    pub style_brand_color_preview: String,
}

/// One fragment as markup.
pub open spec fn spec_fragment_xml(f: FragmentV) -> Seq<char> {
    match f {
        FragmentV::Text(t) => spec_escape_text(t),
        FragmentV::LineBreak => "<hp:lineBreak/>"@,
        FragmentV::MarkpenBegin(color) => "<hp:markpenBegin color=\""@ + spec_escape_attr(color) + "\"/>"@,
        FragmentV::MarkpenEnd => "<hp:markpenEnd/>"@,
    }
}

pub open spec fn spec_fragments_xml(fs: Seq<FragmentV>) -> Seq<char>
    decreases fs.len(),
{
    if fs.len() == 0 { seq![] } else { spec_fragments_xml(fs.drop_last()) + spec_fragment_xml(fs.last()) }
}

/// The command of a hyperlink field: its target with `://` escaped, then the
/// field's fixed options.
pub open spec fn spec_hyperlink_command(path: Seq<char>) -> Seq<char> {
    spec_replace(path, "://"@, "\\://"@) + ";1;0;0;"@
}

/// A run that holds a hyperlink field around its visible text.
pub open spec fn spec_hyperlink_run(c: u32, begin: u64, field: u64, path: Seq<char>, text: Seq<char>, trailing: bool) -> Seq<char> {
    "<hp:run charPrIDRef=\""@ + decimal(c as nat) + "\"><hp:ctrl><hp:fieldBegin id=\""@ + decimal(begin as nat)
        + "\" type=\"HYPERLINK\" name=\"\" editable=\"0\" dirty=\"1\" zorder=\"-1\" fieldid=\""@ + decimal(field as nat)
        + "\"><hp:parameters cnt=\"6\" name=\"\"><hp:integerParam name=\"Prop\">0</hp:integerParam><hp:stringParam name=\"Command\">"@
        + spec_escape_text(spec_hyperlink_command(path)) + "</hp:stringParam><hp:stringParam name=\"Path\">"@ + spec_escape_text(path)
        + "</hp:stringParam><hp:stringParam name=\"Category\">HWPHYPERLINK_TYPE_URL</hp:stringParam><hp:stringParam name=\"TargetType\">HWPHYPERLINK_TARGET_BOOKMARK</hp:stringParam><hp:stringParam name=\"DocOpenType\">HWPHYPERLINK_JUMP_CURRENTTAB</hp:stringParam></hp:parameters></hp:fieldBegin></hp:ctrl><hp:t>"@
        + spec_escape_text(text) + "</hp:t><hp:ctrl><hp:fieldEnd beginIDRef=\""@ + decimal(begin as nat) + "\" fieldid=\""@
        + decimal(field as nat) + "\"/></hp:ctrl>"@ + (if trailing { "<hp:t/>"@ } else { seq![] }) + "</hp:run>"@
}

/// One run as markup.
pub open spec fn spec_compat_run_xml(r: CompatRunV) -> Seq<char> {
    match r {
        CompatRunV::Fragments(c, fs) => "<hp:run charPrIDRef=\""@ + decimal(c as nat) + "\"><hp:t>"@ + spec_fragments_xml(fs) + "</hp:t></hp:run>"@,
        CompatRunV::Hyperlink { char_pr, begin, field, url, text, trailing } => spec_hyperlink_run(char_pr, begin, field, url, text, trailing),
        CompatRunV::Empty(c) => "<hp:run charPrIDRef=\""@ + decimal(c as nat) + "\"/>"@,
    }
}

pub open spec fn spec_compat_runs_xml(rs: Seq<CompatRunV>) -> Seq<char>
    decreases rs.len(),
{
    if rs.len() == 0 { seq![] } else { spec_compat_runs_xml(rs.drop_last()) + spec_compat_run_xml(rs.last()) }
}

/// A vertical position plus an offset, wrapping at 2^32.
pub open spec fn wrap_u32(a: int) -> u32 {
    (a % 4294967296) as u32
}

/// One line of a paragraph's line layout.
pub open spec fn spec_lineseg(textpos: u32, vertpos: u32, m: MetricV) -> Seq<char> {
    "<hp:lineseg textpos=\""@ + decimal(textpos as nat) + "\" vertpos=\""@ + decimal(vertpos as nat) + "\" vertsize=\""@
        + decimal(m.height as nat) + "\" textheight=\""@ + decimal(m.height as nat) + "\" baseline=\""@
        + decimal(baseline_for(m.height) as nat) + "\" spacing=\""@ + decimal(m.spacing as nat) + "\" horzpos=\""@
        + decimal(m.horzpos as nat) + "\" horzsize=\""@ + decimal(m.horzsize as nat) + "\" flags=\""@
        + decimal(m.flags as nat) + "\"/>"@
}

pub open spec fn spec_extra_linesegs(lines: Seq<ExtraLine>, vertpos: u32, m: MetricV) -> Seq<char>
    decreases lines.len(),
{
    if lines.len() == 0 {
        seq![]
    } else {
        let l = lines.last();
        spec_extra_linesegs(lines.drop_last(), vertpos, m) + spec_lineseg(l.textpos, wrap_u32(vertpos + l.vert_offset), m)
    }
}

/// The line layout of a paragraph at a vertical position: its first line, then
/// each further line below it.
pub open spec fn spec_linesegarray(m: MetricV, vertpos: u32) -> Seq<char> {
    "<hp:linesegarray>"@ + spec_lineseg(0, vertpos, m) + spec_extra_linesegs(m.extra_lines, vertpos, m) + "</hp:linesegarray>"@
}

/// A paragraph as markup; the first one also carries the section properties.
pub open spec fn spec_compat_paragraph_xml(p: CompatParagraphV, first: bool, vertpos: u32) -> Seq<char> {
    paragraph_open(p.id as nat, p.para_pr, p.style_id) + (if first { preamble_run(p.default_char_pr) } else { seq![] })
        + spec_compat_runs_xml(p.runs) + spec_linesegarray(p.metric, vertpos) + "</hp:p>"@
}

/// The vertical position below a paragraph.
pub open spec fn next_position(p: CompatParagraphV, vertpos: u32) -> u32 {
    wrap_u32(vertpos + p.metric.height + p.metric.spacing + p.metric.next_gap)
}

/// The paragraphs as markup, each at the vertical position below the ones before
/// it; the position after the last is returned too.
pub open spec fn spec_compat_body(ps: Seq<CompatParagraphV>) -> (Seq<char>, u32)
    decreases ps.len(),
{
    if ps.len() == 0 {
        (seq![], 0)
    } else {
        let prev = spec_compat_body(ps.drop_last());
        (prev.0 + spec_compat_paragraph_xml(ps.last(), ps.len() == 1, prev.1), next_position(ps.last(), prev.1))
    }
}

fn append_fragments(s: &mut String, fragments: &Vec<RunFragment>)
    ensures
        final(s)@ == old(s)@ + spec_fragments_xml(fragments_view(fragments@)),
{
    let ghost s0 = s@;
    let ghost fv = fragments_view(fragments@);
    let mut i: usize = 0;
    while i < fragments.len()
        invariant
            i <= fragments.len(),
            fv == fragments_view(fragments@),
            s@ == s0 + spec_fragments_xml(fv.take(i as int)),
        decreases fragments.len() - i,
    {
        assert(fv.take(i + 1).drop_last() =~= fv.take(i as int));
        assert(fv.take(i + 1).last() == fragments@[i as int]@);
        let ghost before = s@;
        match &fragments[i] {
            RunFragment::Text(t) => {
                let e = escape_text(t.as_str());
                s.append(e.as_str());
            },
            RunFragment::LineBreak => s.append("<hp:lineBreak/>"),
            RunFragment::MarkpenBegin { color } => {
                s.append("<hp:markpenBegin color=\"");
                let e = escape_attr(color.as_str());
                s.append(e.as_str());
                s.append("\"/>");
            },
            RunFragment::MarkpenEnd => s.append("<hp:markpenEnd/>"),
        }
        assert(s@ =~= before + spec_fragment_xml(fragments@[i as int]@));
        i += 1;
    }
    assert(fv.take(fv.len() as int) =~= fv);
}

fn hyperlink_command(path: &str) -> (c: String)
    ensures
        c@ == spec_hyperlink_command(path@),
{
    let mut c = replace_all(path, "://", "\\://");
    c.append(";1;0;0;");
    c
}

fn append_hyperlink_run(s: &mut String, char_pr: u32, begin: u64, field: u64, path: &str, text: &str, trailing: bool)
    ensures
        final(s)@ == old(s)@ + spec_hyperlink_run(char_pr, begin, field, path@, text@, trailing),
{
    let ghost s0 = s@;
    s.append("<hp:run charPrIDRef=\"");
    append_decimal(s, char_pr as u64);
    s.append("\"><hp:ctrl><hp:fieldBegin id=\"");
    append_decimal(s, begin);
    s.append("\" type=\"HYPERLINK\" name=\"\" editable=\"0\" dirty=\"1\" zorder=\"-1\" fieldid=\"");
    append_decimal(s, field);
    s.append("\"><hp:parameters cnt=\"6\" name=\"\"><hp:integerParam name=\"Prop\">0</hp:integerParam><hp:stringParam name=\"Command\">");
    let command = hyperlink_command(path);
    let e = escape_text(command.as_str());
    s.append(e.as_str());
    s.append("</hp:stringParam><hp:stringParam name=\"Path\">");
    let e = escape_text(path);
    s.append(e.as_str());
    s.append("</hp:stringParam><hp:stringParam name=\"Category\">HWPHYPERLINK_TYPE_URL</hp:stringParam><hp:stringParam name=\"TargetType\">HWPHYPERLINK_TARGET_BOOKMARK</hp:stringParam><hp:stringParam name=\"DocOpenType\">HWPHYPERLINK_JUMP_CURRENTTAB</hp:stringParam></hp:parameters></hp:fieldBegin></hp:ctrl><hp:t>");
    let e = escape_text(text);
    s.append(e.as_str());
    s.append("</hp:t><hp:ctrl><hp:fieldEnd beginIDRef=\"");
    append_decimal(s, begin);
    s.append("\" fieldid=\"");
    append_decimal(s, field);
    s.append("\"/></hp:ctrl>");
    if trailing {
        s.append("<hp:t/>");
    }
    s.append("</hp:run>");
    assert(s@ =~= s0 + spec_hyperlink_run(char_pr, begin, field, path@, text@, trailing));
}

fn append_run(s: &mut String, run: &CompatRun)
    ensures
        final(s)@ == old(s)@ + spec_compat_run_xml(run@),
{
    let ghost s0 = s@;
    match run {
        CompatRun::Fragments { char_pr, fragments } => {
            s.append("<hp:run charPrIDRef=\"");
            append_decimal(s, *char_pr as u64);
            s.append("\"><hp:t>");
            append_fragments(s, fragments);
            s.append("</hp:t></hp:run>");
        },
        CompatRun::Hyperlink { char_pr, field_begin_id, field_id, url, text, trailing_empty_text } => {
            append_hyperlink_run(s, *char_pr, *field_begin_id, *field_id, url.as_str(), text.as_str(), *trailing_empty_text);
        },
        CompatRun::Empty { char_pr } => {
            s.append("<hp:run charPrIDRef=\"");
            append_decimal(s, *char_pr as u64);
            s.append("\"/>");
        },
    }
    assert(s@ =~= s0 + spec_compat_run_xml(run@));
}

fn append_lineseg(s: &mut String, textpos: u32, vertpos: u32, m: &ParaMetric)
    ensures
        final(s)@ == old(s)@ + spec_lineseg(textpos, vertpos, m@),
{
    let ghost s0 = s@;
    s.append("<hp:lineseg textpos=\"");
    append_decimal(s, textpos as u64);
    s.append("\" vertpos=\"");
    append_decimal(s, vertpos as u64);
    s.append("\" vertsize=\"");
    append_decimal(s, m.height as u64);
    s.append("\" textheight=\"");
    append_decimal(s, m.height as u64);
    s.append("\" baseline=\"");
    append_decimal(s, baseline_of(m.height) as u64);
    s.append("\" spacing=\"");
    append_decimal(s, m.spacing as u64);
    s.append("\" horzpos=\"");
    append_decimal(s, m.horzpos as u64);
    s.append("\" horzsize=\"");
    append_decimal(s, m.horzsize as u64);
    s.append("\" flags=\"");
    append_decimal(s, m.flags as u64);
    s.append("\"/>");
    assert(s@ =~= s0 + spec_lineseg(textpos, vertpos, m@));
}

fn wrapping_sum(a: u32, b: u32) -> (r: u32)
    ensures
        r == wrap_u32(a + b),
{
    ((a as u64 + b as u64) % 4294967296) as u32
}

fn render_linesegarray(s: &mut String, m: &ParaMetric, vertpos: u32)
    ensures
        final(s)@ == old(s)@ + spec_linesegarray(m@, vertpos),
{
    let ghost s0 = s@;
    s.append("<hp:linesegarray>");
    append_lineseg(s, 0, vertpos, m);
    let ghost s1 = s@;
    let ghost lines = m.extra_lines@;
    let mut i: usize = 0;
    while i < m.extra_lines.len()
        invariant
            i <= m.extra_lines.len(),
            lines == m.extra_lines@,
            s@ == s1 + spec_extra_linesegs(lines.take(i as int), vertpos, m@),
        decreases m.extra_lines.len() - i,
    {
        assert(lines.take(i + 1).drop_last() =~= lines.take(i as int));
        let line = m.extra_lines[i];
        append_lineseg(s, line.textpos, wrapping_sum(vertpos, line.vert_offset), m);
        i += 1;
    }
    assert(lines.take(lines.len() as int) =~= lines);
    s.append("</hp:linesegarray>");
    assert(s@ =~= s0 + spec_linesegarray(m@, vertpos));
}

fn render_paragraph(p: &CompatParagraph, is_first: bool, vertpos: u32) -> (s: String)
    ensures
        s@ == spec_compat_paragraph_xml(p@, is_first, vertpos),
{
    let mut s = String::new();
    append_paragraph_open(&mut s, p.id, p.para_pr, p.style_id);
    let ghost s1 = s@;
    if is_first {
        append_preamble_run(&mut s, p.default_char_pr);
    }
    let ghost s2 = s@;
    let ghost rv = compat_runs_view(p.runs@);
    let mut i: usize = 0;
    while i < p.runs.len()
        invariant
            i <= p.runs.len(),
            rv == compat_runs_view(p.runs@),
            s@ == s2 + spec_compat_runs_xml(rv.take(i as int)),
        decreases p.runs.len() - i,
    {
        assert(rv.take(i + 1).drop_last() =~= rv.take(i as int));
        assert(rv.take(i + 1).last() == p.runs@[i as int]@);
        append_run(&mut s, &p.runs[i]);
        i += 1;
    }
    assert(rv.take(rv.len() as int) =~= rv);
    render_linesegarray(&mut s, &p.metric, vertpos);
    s.append("</hp:p>");
    assert(s@ =~= spec_compat_paragraph_xml(p@, is_first, vertpos));
    s
}

/// The paragraphs as markup, one below the other.
fn render_body(paragraphs: &Vec<CompatParagraph>) -> (body: String)
    ensures
        body@ == spec_compat_body(paragraphs_view(paragraphs@)).0,
{
    let ghost pv = paragraphs_view(paragraphs@);
    let mut body = String::new();
    let mut vertpos: u32 = 0;
    let mut i: usize = 0;
    while i < paragraphs.len()
        invariant
            i <= paragraphs.len(),
            pv == paragraphs_view(paragraphs@),
            (body@, vertpos) == spec_compat_body(pv.take(i as int)),
        decreases paragraphs.len() - i,
    {
        assert(pv.take(i + 1).drop_last() =~= pv.take(i as int));
        assert(pv.take(i + 1).last() == paragraphs@[i as int]@);
        let p = &paragraphs[i];
        let xml = render_paragraph(p, i == 0, vertpos);
        body.append(xml.as_str());
        let step = wrapping_sum(p.metric.height, p.metric.spacing);
        let step = wrapping_sum(step, p.metric.next_gap);
        vertpos = wrapping_sum(vertpos, step);
        assert(vertpos == next_position(p@, spec_compat_body(pv.take(i as int)).1)) by {
            lemma_wrap_sum(spec_compat_body(pv.take(i as int)).1, p.metric.height, p.metric.spacing, p.metric.next_gap);
        }
        i += 1;
    }
    assert(pv.take(pv.len() as int) =~= pv);
    body
}

/// The section of a document in a compatibility profile: the reference text for
/// the two profiles that have one, otherwise its paragraphs as markup.
pub open spec fn spec_compat_section_xml(
    bs: Seq<BlockV>,
    p: CompatibilityProfile,
    st: ResolvedStyleV,
    t: CompatSectionTemplates,
) -> Result<Seq<char>, ErrorV> {
    if p == CompatibilityProfile::CoreParagraphFixture {
        Ok(t.core_paragraph_section@)
    } else if p == CompatibilityProfile::StyleBrandColor {
        Ok(t.style_brand_color_section@)
    } else {
        match spec_collect_paragraphs(bs, p, st) {
            Err(e) => Err(e),
            Ok(ps) => Ok(section_open() + spec_compat_body(ps).0 + "</hs:sec>"@),
        }
    }
}

/// The section of a document in a compatibility profile.
pub fn build_compat_section_xml(
    document: &Document,
    profile: CompatibilityProfile,
    style: &ResolvedHwpxStyle,
    templates: &CompatSectionTemplates,
) -> (r: Result<String, CoreRsError>)
    ensures
        match spec_compat_section_xml(document@, profile, style@, *templates) {
            Ok(x) => r matches Ok(s) && s@ == x,
            Err(e) => r matches Err(x) && x@ == e,
        },
{
    if profile == CompatibilityProfile::CoreParagraphFixture {
        return Ok(templates.core_paragraph_section.clone());
    }
    if profile == CompatibilityProfile::StyleBrandColor {
        return Ok(templates.style_brand_color_section.clone());
    }
    let paragraphs = collect_paragraphs(document, profile, style)?;
    let body = render_body(&paragraphs);
    Ok(section_document(body.as_str()))
}

proof fn lemma_wrap_sum(v: u32, h: u32, sp: u32, gap: u32)
    ensures
        wrap_u32(v + wrap_u32(wrap_u32(h + sp) + gap)) == wrap_u32(v + h + sp + gap),
{
    let m: int = 4294967296;
    let a = (h + sp) % m;
    let b = (a + gap) % m;
    assert((v + b) % m == (v + h + sp + gap) % m) by (nonlinear_arith)
        requires
            m == 4294967296,
            a == (h + sp) % m,
            b == (a + gap) % m,
    {
        vstd::arithmetic::div_mod::lemma_add_mod_noop(h + sp, gap as int, m);
        vstd::arithmetic::div_mod::lemma_add_mod_noop(v as int, h + sp + gap, m);
        vstd::arithmetic::div_mod::lemma_add_mod_noop(v as int, a + gap, m);
        vstd::arithmetic::div_mod::lemma_mod_twice(h + sp + gap, m);
    }
}

/// The text of fragments: their text pieces run together.
pub open spec fn spec_fragments_text(fs: Seq<FragmentV>) -> Seq<char>
    decreases fs.len(),
{
    if fs.len() == 0 {
        seq![]
    } else {
        spec_fragments_text(fs.drop_last()) + match fs.last() {
            FragmentV::Text(t) => t,
            _ => seq![],
        }
    }
}

/// The preview text of a run: its fragments' text, or a link's visible text; an
/// empty run has none.
pub open spec fn spec_run_preview(r: CompatRunV) -> Seq<char> {
    match r {
        CompatRunV::Fragments(_, fs) => spec_fragments_text(fs),
        CompatRunV::Hyperlink { text, .. } => text,
        CompatRunV::Empty(_) => seq![],
    }
}

pub open spec fn spec_runs_preview(rs: Seq<CompatRunV>) -> Seq<char>
    decreases rs.len(),
{
    if rs.len() == 0 { seq![] } else { spec_runs_preview(rs.drop_last()) + spec_run_preview(rs.last()) }
}

/// The preview lines of paragraphs: the text of each paragraph but the closing
/// empty ones, leaving out empty texts.
pub open spec fn spec_preview_lines(ps: Seq<CompatParagraphV>) -> Seq<Seq<char>>
    decreases ps.len(),
{
    if ps.len() == 0 {
        seq![]
    } else {
        let prev = spec_preview_lines(ps.drop_last());
        let p = ps.last();
        let t = spec_runs_preview(p.runs);
        if p.kind != CompatParagraphKind::TerminalEmpty && t.len() > 0 { prev.push(t) } else { prev }
    }
}

/// Where each profile puts the caret: a paragraph and an offset; the mixed layout
/// after the last preview line, the typography layout after the second.
pub open spec fn spec_compat_caret(p: CompatibilityProfile, lines: Seq<Seq<char>>) -> (nat, nat) {
    match p {
        CompatibilityProfile::CoreParagraphFixture => (2, 0),
        CompatibilityProfile::CoreParagraph => (0, 45),
        CompatibilityProfile::CoreInlineStyle => (0, 28),
        CompatibilityProfile::CoreLinkText => (1, 0),
        CompatibilityProfile::CoreMixed => (2, if lines.len() > 0 { lines.last().len() } else { 0 }),
        CompatibilityProfile::StyleBrandColor => (2, 0),
        CompatibilityProfile::StyleCenteredLayout => (3, 0),
        CompatibilityProfile::StyleTypography => (1, if lines.len() > 1 { lines[1].len() } else { 0 }),
        CompatibilityProfile::LegacyDefault => (0, 45),
    }
}

/// The preview text of a document in a compatibility profile and the caret that
/// goes with it: the reference preview for the two profiles that have one, else
/// the preview lines joined by line feeds.
pub open spec fn spec_compat_preview(
    bs: Seq<BlockV>,
    p: CompatibilityProfile,
    st: ResolvedStyleV,
    t: CompatSectionTemplates,
) -> Result<(Seq<char>, (nat, nat)), ErrorV> {
    if p == CompatibilityProfile::CoreParagraphFixture {
        Ok((t.core_paragraph_preview@, (2, 0)))
    } else if p == CompatibilityProfile::StyleBrandColor {
        Ok((t.style_brand_color_preview@, (2, 0)))
    } else {
        match spec_collect_paragraphs(bs, p, st) {
            Err(e) => Err(e),
            Ok(ps) => {
                let lines = spec_preview_lines(ps);
                Ok((spec_join(lines, "\n"@), spec_compat_caret(p, lines)))
            },
        }
    }
}

fn fragments_text(fragments: &Vec<RunFragment>) -> (t: String)
    ensures
        t@ == spec_fragments_text(fragments_view(fragments@)),
{
    let ghost fv = fragments_view(fragments@);
    let mut t = String::new();
    let mut i: usize = 0;
    while i < fragments.len()
        invariant
            i <= fragments.len(),
            fv == fragments_view(fragments@),
            t@ == spec_fragments_text(fv.take(i as int)),
        decreases fragments.len() - i,
    {
        assert(fv.take(i + 1).drop_last() =~= fv.take(i as int));
        assert(fv.take(i + 1).last() == fragments@[i as int]@);
        match &fragments[i] {
            RunFragment::Text(x) => t.append(x.as_str()),
            _ => {},
        }
        i += 1;
    }
    assert(fv.take(fv.len() as int) =~= fv);
    t
}

fn paragraph_preview_text(p: &CompatParagraph) -> (t: String)
    ensures
        t@ == spec_runs_preview(p@.runs),
{
    let ghost rv = compat_runs_view(p.runs@);
    let mut t = String::new();
    let mut i: usize = 0;
    while i < p.runs.len()
        invariant
            i <= p.runs.len(),
            rv == compat_runs_view(p.runs@),
            t@ == spec_runs_preview(rv.take(i as int)),
        decreases p.runs.len() - i,
    {
        assert(rv.take(i + 1).drop_last() =~= rv.take(i as int));
        assert(rv.take(i + 1).last() == p.runs@[i as int]@);
        match &p.runs[i] {
            CompatRun::Fragments { fragments, .. } => {
                let x = fragments_text(fragments);
                t.append(x.as_str());
            },
            CompatRun::Hyperlink { text, .. } => t.append(text.as_str()),
            CompatRun::Empty { .. } => {},
        }
        i += 1;
    }
    assert(rv.take(rv.len() as int) =~= rv);
    t
}

fn preview_lines(paragraphs: &Vec<CompatParagraph>) -> (lines: Vec<String>)
    ensures
        crate::generators::hwpx::items::strings_view(lines@) == spec_preview_lines(paragraphs_view(paragraphs@)),
{
    let ghost pv = paragraphs_view(paragraphs@);
    let mut lines: Vec<String> = Vec::new();
    let mut i: usize = 0;
    assert(crate::generators::hwpx::items::strings_view(lines@) =~= Seq::<Seq<char>>::empty());
    while i < paragraphs.len()
        invariant
            i <= paragraphs.len(),
            pv == paragraphs_view(paragraphs@),
            crate::generators::hwpx::items::strings_view(lines@) == spec_preview_lines(pv.take(i as int)),
        decreases paragraphs.len() - i,
    {
        assert(pv.take(i + 1).drop_last() =~= pv.take(i as int));
        assert(pv.take(i + 1).last() == paragraphs@[i as int]@);
        let p = &paragraphs[i];
        if p.kind != CompatParagraphKind::TerminalEmpty {
            let t = paragraph_preview_text(p);
            if !t.as_str().is_empty() {
                let ghost before = crate::generators::hwpx::items::strings_view(lines@);
                lines.push(t);
                assert(crate::generators::hwpx::items::strings_view(lines@) =~= before.push(t@));
            }
        }
        i += 1;
    }
    assert(pv.take(pv.len() as int) =~= pv);
    lines
}

/// The preview text of a document in a compatibility profile; the caret is moved
/// where the profile puts it, and left as it was when the document is refused.
pub fn build_compat_preview_text(
    document: &Document,
    profile: CompatibilityProfile,
    style: &ResolvedHwpxStyle,
    templates: &CompatSectionTemplates,
    caret: &mut CaretPosition,
) -> (r: Result<String, CoreRsError>)
    ensures
        match spec_compat_preview(document@, profile, style@, *templates) {
            Ok(x) => r matches Ok(s) && s@ == x.0 && final(caret).para_id_ref == x.1.0 && final(caret).pos == x.1.1,
            Err(e) => r matches Err(y) && y@ == e && *final(caret) == *old(caret),
        },
{
    if profile == CompatibilityProfile::CoreParagraphFixture {
        set_settings_caret(caret, 2, 0);
        return Ok(templates.core_paragraph_preview.clone());
    }
    if profile == CompatibilityProfile::StyleBrandColor {
        set_settings_caret(caret, 2, 0);
        return Ok(templates.style_brand_color_preview.clone());
    }
    let paragraphs = collect_paragraphs(document, profile, style)?;
    let lines = preview_lines(&paragraphs);
    let ghost lv = crate::generators::hwpx::items::strings_view(lines@);
    match profile {
        CompatibilityProfile::CoreParagraph => set_settings_caret(caret, 0, 45),
        CompatibilityProfile::CoreInlineStyle => set_settings_caret(caret, 0, 28),
        CompatibilityProfile::CoreLinkText => set_settings_caret(caret, 1, 0),
        CompatibilityProfile::CoreMixed => {
            let pos = if lines.len() > 0 { chars_of(lines[lines.len() - 1].as_str()).len() } else { 0 };
            set_settings_caret(caret, 2, pos);
        },
        CompatibilityProfile::StyleCenteredLayout => set_settings_caret(caret, 3, 0),
        CompatibilityProfile::StyleTypography => {
            let pos = if lines.len() > 1 { chars_of(lines[1].as_str()).len() } else { 0 };
            set_settings_caret(caret, 1, pos);
        },
        _ => set_settings_caret(caret, 0, 45),
    }
    Ok(join_strings(&lines, "\n"))
}

} // verus!
