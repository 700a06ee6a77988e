//! Text runs of HWPX paragraphs: inline content flattened to character property
//! runs.
use vstd::prelude::*;
use crate::error::{CoreRsError, ErrorKind, ErrorV, err};
use crate::models::inline::{Inline, InlineV, inlines_view};
use crate::utils::text::{owned, push_char, spec_trim, trim};

verus! {

broadcast use crate::models::block::group_view_lemmas;

pub const NORMAL_CHAR_PR: u32 = 6;
pub const BOLD_CHAR_PR: u32 = 7;
pub const ITALIC_CHAR_PR: u32 = 8;
pub const CODE_CHAR_PR: u32 = 9;
pub const H1_CHAR_PR: u32 = 10;
pub const H2_CHAR_PR: u32 = 11;
pub const H3_CHAR_PR: u32 = 12;
pub const H4_CHAR_PR: u32 = 13;
pub const LINK_CHAR_PR: u32 = 14;

/// A run of text with one character property.
#[derive(Debug)]
pub struct RunSpec {
    pub char_pr: u32,
    pub text: String,
}

pub type RunV = (u32, Seq<char>);

impl View for RunSpec {
    type V = RunV;

    open spec fn view(&self) -> RunV {
        (self.char_pr, self.text@)
    }
}

pub open spec fn runs_view(s: Seq<RunSpec>) -> Seq<RunV> {
    s.map_values(|r: RunSpec| r@)
}

pub open spec fn is_heading_char_pr(c: u32) -> bool {
    c == H1_CHAR_PR || c == H2_CHAR_PR || c == H3_CHAR_PR || c == H4_CHAR_PR
}

/// Strong text keeps a heading's or bold property, else is bold.
pub open spec fn spec_strong_char_pr(c: u32) -> u32 {
    if is_heading_char_pr(c) || c == BOLD_CHAR_PR { c } else { BOLD_CHAR_PR }
}

/// Emphasis keeps a heading's property, else is italic.
pub open spec fn spec_emphasis_char_pr(c: u32) -> u32 {
    if is_heading_char_pr(c) { c } else { ITALIC_CHAR_PR }
}

/// Code keeps a heading's property, else uses the code property.
pub open spec fn spec_code_char_pr(c: u32) -> u32 {
    if is_heading_char_pr(c) { c } else { CODE_CHAR_PR }
}

/// A link keeps a heading's property, else uses the link property.
pub open spec fn spec_link_char_pr(c: u32) -> u32 {
    if is_heading_char_pr(c) { c } else { LINK_CHAR_PR }
}

pub fn strong_char_pr(c: u32) -> (r: u32)
    ensures
        r == spec_strong_char_pr(c),
{
    if c == H1_CHAR_PR || c == H2_CHAR_PR || c == H3_CHAR_PR || c == H4_CHAR_PR || c == BOLD_CHAR_PR { c } else { BOLD_CHAR_PR }
}

pub fn emphasis_char_pr(c: u32) -> (r: u32)
    ensures
        r == spec_emphasis_char_pr(c),
{
    if c == H1_CHAR_PR || c == H2_CHAR_PR || c == H3_CHAR_PR || c == H4_CHAR_PR { c } else { ITALIC_CHAR_PR }
}

pub fn code_char_pr(c: u32) -> (r: u32)
    ensures
        r == spec_code_char_pr(c),
{
    if c == H1_CHAR_PR || c == H2_CHAR_PR || c == H3_CHAR_PR || c == H4_CHAR_PR { c } else { CODE_CHAR_PR }
}

pub fn link_char_pr(c: u32) -> (r: u32)
    ensures
        r == spec_link_char_pr(c),
{
    if c == H1_CHAR_PR || c == H2_CHAR_PR || c == H3_CHAR_PR || c == H4_CHAR_PR { c } else { LINK_CHAR_PR }
}

pub open spec fn image_unsupported() -> ErrorV {
    err(ErrorKind::UnsupportedFeature, "HWPX core does not support image"@)
}

/// The visible text of a link: its label and URL, or the URL alone when the label
/// is blank.
pub open spec fn link_text(label: Seq<char>, url: Seq<char>) -> Seq<char> {
    if spec_trim(label).len() == 0 { url } else { label + " ("@ + url + ")"@ }
}

/// The visible text of an image: its alt text, or `[image]` when blank.
pub open spec fn image_text(alt: Seq<char>) -> Seq<char> {
    if spec_trim(alt).len() == 0 { "[image]"@ } else { alt }
}

/// The plain text of inlines; images are refused in strict mode.
pub open spec fn spec_flatten(s: Seq<InlineV>, strict: bool) -> Result<Seq<char>, ErrorV>
    decreases s,
{
    if s.len() == 0 {
        Ok(seq![])
    } else {
        match spec_flatten(s.drop_last(), strict) {
            Err(e) => Err(e),
            Ok(x) => match spec_flatten_one(s.last(), strict) {
                Err(e) => Err(e),
                Ok(y) => Ok(x + y),
            },
        }
    }
}

pub open spec fn spec_flatten_one(i: InlineV, strict: bool) -> Result<Seq<char>, ErrorV>
    decreases i,
{
    match i {
        InlineV::Text(v) => Ok(v),
        InlineV::Emphasis(c) => spec_flatten(c, strict),
        InlineV::Strong(c) => spec_flatten(c, strict),
        InlineV::Code(c) => Ok(c),
        InlineV::Link { text, url } => match spec_flatten(text, strict) {
            Err(e) => Err(e),
            Ok(label) => Ok(link_text(label, url)),
        },
        InlineV::Image(img) => if strict { Err(image_unsupported()) } else { Ok(image_text(img.alt)) },
        InlineV::HardBreak => Ok(seq![' ']),
    }
}

/// Outside strict mode flattening never fails.
pub proof fn lemma_flatten_lenient(s: Seq<InlineV>)
    ensures
        spec_flatten(s, false) is Ok,
    decreases s,
{
    if s.len() > 0 {
        lemma_flatten_lenient(s.drop_last());
        lemma_flatten_one_lenient(s.last());
    }
}

pub proof fn lemma_flatten_one_lenient(i: InlineV)
    ensures
        spec_flatten_one(i, false) is Ok,
    decreases i,
{
    match i {
        InlineV::Emphasis(c) => lemma_flatten_lenient(c),
        InlineV::Strong(c) => lemma_flatten_lenient(c),
        InlineV::Link { text, .. } => lemma_flatten_lenient(text),
        _ => {},
    }
}

/// The plain text of inlines outside strict mode.
pub open spec fn spec_flatten_lenient(s: Seq<InlineV>) -> Seq<char> {
    spec_flatten(s, false)->Ok_0
}

proof fn lemma_flatten_err(s: Seq<InlineV>, strict: bool, k: int)
    requires
        0 <= k <= s.len(),
        spec_flatten(s.take(k), strict) is Err,
    ensures
        spec_flatten(s, strict) == spec_flatten(s.take(k), strict),
    decreases s.len(),
{
    if s.len() == k {
        assert(s.take(k) == s);
    } else {
        assert(s.drop_last().take(k) == s.take(k));
        lemma_flatten_err(s.drop_last(), strict, k);
    }
}

fn link_visible_text(label: String, url: &str) -> (t: String)
    ensures
        t@ == link_text(label@, url@),
{
    let trimmed = trim(label.as_str());
    if trimmed.as_str().is_empty() {
        owned(url)
    } else {
        let mut t = label;
        t.append(" (");
        t.append(url);
        t.append(")");
        t
    }
}

fn image_visible_text(alt: &str) -> (t: String)
    ensures
        t@ == image_text(alt@),
{
    let trimmed = trim(alt);
    if trimmed.as_str().is_empty() { owned("[image]") } else { owned(alt) }
}

/// The plain text of inlines; images are refused in strict mode.
pub fn flatten_inline_children(inlines: &Vec<Inline>, strict_mode: bool) -> (r: Result<String, CoreRsError>)
    ensures
        match spec_flatten(inlines_view(inlines@), strict_mode) {
            Ok(t) => r matches Ok(x) && x@ == t,
            Err(e) => r matches Err(x) && x@ == e,
        },
    decreases inlines,
{
    let ghost v = inlines_view(inlines@);
    let mut text = String::new();
    let mut i: usize = 0;
    while i < inlines.len()
        invariant
            i <= inlines.len(),
            v == inlines_view(inlines@),
            spec_flatten(v.take(i as int), strict_mode) == Ok::<Seq<char>, ErrorV>(text@),
        decreases inlines.len() - i,
    {
        assert(v.take(i + 1).drop_last() == v.take(i as int));
        assert(v.take(i + 1).last() == inlines@[i as int]@);
        proof {
            assert(decreases_to!(inlines => inlines@));
            assert(decreases_to!(inlines@ => inlines@[i as int]));
        }
        match flatten_one(&inlines[i], strict_mode) {
            Ok(part) => text.append(part.as_str()),
            Err(e) => {
                assert(spec_flatten(v.take(i + 1), strict_mode) == Err::<Seq<char>, ErrorV>(e@));
                proof { lemma_flatten_err(v, strict_mode, i + 1); }
                return Err(e);
            },
        }
        i += 1;
    }
    assert(v.take(v.len() as int) == v);
    Ok(text)
}

fn flatten_one(inline: &Inline, strict_mode: bool) -> (r: Result<String, CoreRsError>)
    ensures
        match spec_flatten_one(inline@, strict_mode) {
            Ok(t) => r matches Ok(x) && x@ == t,
            Err(e) => r matches Err(x) && x@ == e,
        },
    decreases inline,
{
    match inline {
        Inline::Text(value) => Ok(value.clone()),
        Inline::Emphasis(children) => flatten_inline_children(children, strict_mode),
        Inline::Strong(children) => flatten_inline_children(children, strict_mode),
        Inline::Code(code) => Ok(code.clone()),
        Inline::Link { text, url } => {
            let label = flatten_inline_children(text, strict_mode)?;
            Ok(link_visible_text(label, url.as_str()))
        },
        Inline::Image(image) => {
            if strict_mode {
                return Err(CoreRsError::from_str_detail(ErrorKind::UnsupportedFeature, "HWPX core does not support image"));
            }
            Ok(image_visible_text(image.alt.as_str()))
        },
        Inline::HardBreak => {
            let mut s = String::new();
            push_char(&mut s, ' ');
            Ok(s)
        },
    }
}

/// A run, or none when its text is empty.
pub open spec fn run_of(c: u32, t: Seq<char>) -> Seq<RunV> {
    if t.len() == 0 { seq![] } else { seq![(c, t)] }
}

/// The runs of inlines before adjacent runs are merged.
pub open spec fn spec_raw_runs(s: Seq<InlineV>, c: u32, strict: bool) -> Result<Seq<RunV>, ErrorV>
    decreases s,
{
    if s.len() == 0 {
        Ok(seq![])
    } else {
        match spec_raw_runs(s.drop_last(), c, strict) {
            Err(e) => Err(e),
            Ok(x) => match spec_raw_runs_one(s.last(), c, strict) {
                Err(e) => Err(e),
                Ok(y) => Ok(x + y),
            },
        }
    }
}

/// The runs of one inline: text with the paragraph's property, spans and code with
/// theirs, a link as its visible text, an image as its alt text (refused in strict
/// mode), a hard break as a space.
pub open spec fn spec_raw_runs_one(i: InlineV, c: u32, strict: bool) -> Result<Seq<RunV>, ErrorV>
    decreases i,
{
    match i {
        InlineV::Text(v) => Ok(run_of(c, v)),
        InlineV::Emphasis(ch) => spec_raw_runs(ch, spec_emphasis_char_pr(c), strict),
        InlineV::Strong(ch) => spec_raw_runs(ch, spec_strong_char_pr(c), strict),
        InlineV::Code(v) => Ok(run_of(spec_code_char_pr(c), v)),
        InlineV::Link { text, url } => match spec_flatten(text, strict) {
            Err(e) => Err(e),
            Ok(label) => Ok(run_of(spec_link_char_pr(c), link_text(label, url))),
        },
        InlineV::Image(img) => if strict { Err(image_unsupported()) } else { Ok(run_of(c, image_text(img.alt))) },
        InlineV::HardBreak => Ok(run_of(c, seq![' '])),
    }
}

/// Adjacent runs with the same property joined into one.
pub open spec fn spec_merge_runs(runs: Seq<RunV>) -> Seq<RunV>
    decreases runs.len(),
{
    if runs.len() == 0 {
        seq![]
    } else {
        let m = spec_merge_runs(runs.drop_last());
        let r = runs.last();
        if m.len() > 0 && m.last().0 == r.0 {
            m.update(m.len() - 1, (r.0, m.last().1 + r.1))
        } else {
            m.push(r)
        }
    }
}

/// The runs of a paragraph's inlines.
pub open spec fn spec_render_runs(s: Seq<InlineV>, c: u32, strict: bool) -> Result<Seq<RunV>, ErrorV> {
    match spec_raw_runs(s, c, strict) {
        Err(e) => Err(e),
        Ok(raw) => Ok(spec_merge_runs(raw)),
    }
}

proof fn lemma_raw_runs_err(s: Seq<InlineV>, c: u32, strict: bool, k: int)
    requires
        0 <= k <= s.len(),
        spec_raw_runs(s.take(k), c, strict) is Err,
    ensures
        spec_raw_runs(s, c, strict) == spec_raw_runs(s.take(k), c, strict),
    decreases s.len(),
{
    if s.len() == k {
        assert(s.take(k) == s);
    } else {
        assert(s.drop_last().take(k) == s.take(k));
        lemma_raw_runs_err(s.drop_last(), c, strict, k);
    }
}

fn push_run(runs: &mut Vec<RunSpec>, char_pr: u32, text: String)
    ensures
        runs_view(final(runs)@) == runs_view(old(runs)@) + run_of(char_pr, text@),
{
    let ghost before = runs_view(runs@);
    if text.as_str().is_empty() {
        assert(runs_view(runs@) =~= before + seq![]);
        return;
    }
    runs.push(RunSpec { char_pr, text });
    assert(runs_view(runs@) =~= before + seq![(char_pr, text@)]);
}

fn collect_inline_runs(inline: &Inline, default_char_pr: u32, strict_mode: bool, runs: &mut Vec<RunSpec>) -> (r: Result<(), CoreRsError>)
    ensures
        match spec_raw_runs_one(inline@, default_char_pr, strict_mode) {
            Ok(x) => r is Ok && runs_view(final(runs)@) == runs_view(old(runs)@) + x,
            Err(e) => r matches Err(er) && er@ == e,
        },
    decreases inline,
{
    match inline {
        Inline::Text(value) => {
            push_run(runs, default_char_pr, value.clone());
            Ok(())
        },
        Inline::Emphasis(children) => collect_runs(children, emphasis_char_pr(default_char_pr), strict_mode, runs),
        Inline::Strong(children) => collect_runs(children, strong_char_pr(default_char_pr), strict_mode, runs),
        Inline::Code(code) => {
            push_run(runs, code_char_pr(default_char_pr), code.clone());
            Ok(())
        },
        Inline::Link { text, url } => {
            let label = flatten_inline_children(text, strict_mode)?;
            push_run(runs, link_char_pr(default_char_pr), link_visible_text(label, url.as_str()));
            Ok(())
        },
        Inline::Image(image) => {
            if strict_mode {
                return Err(CoreRsError::from_str_detail(ErrorKind::UnsupportedFeature, "HWPX core does not support image"));
            }
            push_run(runs, default_char_pr, image_visible_text(image.alt.as_str()));
            Ok(())
        },
        Inline::HardBreak => {
            let mut s = String::new();
            push_char(&mut s, ' ');
            push_run(runs, default_char_pr, s);
            Ok(())
        },
    }
}

fn collect_runs(inlines: &Vec<Inline>, default_char_pr: u32, strict_mode: bool, runs: &mut Vec<RunSpec>) -> (r: Result<(), CoreRsError>)
    ensures
        match spec_raw_runs(inlines_view(inlines@), default_char_pr, strict_mode) {
            Ok(x) => r is Ok && runs_view(final(runs)@) == runs_view(old(runs)@) + x,
            Err(e) => r matches Err(er) && er@ == e,
        },
    decreases inlines,
{
    let ghost v = inlines_view(inlines@);
    let ghost start = runs_view(runs@);
    let mut i: usize = 0;
    while i < inlines.len()
        invariant
            i <= inlines.len(),
            v == inlines_view(inlines@),
            start == runs_view(old(runs)@),
            spec_raw_runs(v.take(i as int), default_char_pr, strict_mode) matches Ok(x) && runs_view(runs@) == start + x,
        decreases inlines.len() - i,
    {
        assert(v.take(i + 1).drop_last() == v.take(i as int));
        assert(v.take(i + 1).last() == inlines@[i as int]@);
        proof {
            assert(decreases_to!(inlines => inlines@));
            assert(decreases_to!(inlines@ => inlines@[i as int]));
        }
        let ghost before = runs_view(runs@);
        match collect_inline_runs(&inlines[i], default_char_pr, strict_mode, runs) {
            Ok(()) => {
                assert(runs_view(runs@) =~= start + spec_raw_runs(v.take(i + 1), default_char_pr, strict_mode)->Ok_0);
            },
            Err(e) => {
                assert(spec_raw_runs(v.take(i + 1), default_char_pr, strict_mode) == Err::<Seq<RunV>, ErrorV>(e@));
                proof { lemma_raw_runs_err(v, default_char_pr, strict_mode, i + 1); }
                return Err(e);
            },
        }
        i += 1;
    }
    assert(v.take(v.len() as int) == v);
    Ok(())
}

/// Joins adjacent runs with the same property.
pub fn merge_adjacent_runs(runs: Vec<RunSpec>) -> (merged: Vec<RunSpec>)
    ensures
        runs_view(merged@) == spec_merge_runs(runs_view(runs@)),
{
    let ghost rv = runs_view(runs@);
    let mut merged: Vec<RunSpec> = Vec::new();
    assert(runs_view(merged@) =~= seq![]);
    for run in it: runs.into_iter()
        invariant
            it.seq() == runs@,
            rv == runs_view(runs@),
            runs_view(merged@) == spec_merge_runs(rv.take(it.index() as int)),
    {
        assert(rv.take(it.index() + 1).drop_last() == rv.take(it.index() as int));
        assert(rv.take(it.index() + 1).last() == run@);
        let ghost before = runs_view(merged@);
        let n = merged.len();
        if n > 0 && merged[n - 1].char_pr == run.char_pr {
            let mut last = merged.pop().unwrap();
            last.text.append(run.text.as_str());
            merged.push(last);
            assert(runs_view(merged@) =~= before.update(before.len() - 1, (run.char_pr, before.last().1 + run.text@)));
        } else {
            merged.push(run);
            assert(runs_view(merged@) =~= before.push(run@));
        }
    }
    assert(rv.take(rv.len() as int) == rv);
    merged
}

/// The runs of a paragraph's inlines.
pub fn render_runs(inlines: &Vec<Inline>, default_char_pr: u32, strict_mode: bool) -> (r: Result<Vec<RunSpec>, CoreRsError>)
    ensures
        match spec_render_runs(inlines_view(inlines@), default_char_pr, strict_mode) {
            Ok(x) => r matches Ok(v) && runs_view(v@) == x,
            Err(e) => r matches Err(er) && er@ == e,
        },
{
    let mut runs: Vec<RunSpec> = Vec::new();
    assert(runs_view(runs@) =~= seq![]);
    collect_runs(inlines, default_char_pr, strict_mode, &mut runs)?;
    assert(runs_view(runs@) =~= spec_raw_runs(inlines_view(inlines@), default_char_pr, strict_mode)->Ok_0);
    Ok(merge_adjacent_runs(runs))
}

} // verus!
