//! What a conversion will lose or refuse, found before converting.
use vstd::prelude::*;
use crate::models::block::{Block, BlockV, TableRow, blocks_view, cells_view, rows_view};
use crate::models::inline::{Inline, InlineV, inlines_view};
use crate::parser::markdown::data_image::{DataImageError, DataImageErrorV, spec_into_core_error, spec_parse_data_uri, parse_data_uri};
use crate::parser::markdown::source::{MdEvent, MdEventV, MdTag, MdTagV, TagKind, events_view, markdown_events, spec_markdown_events};
use crate::error::spec_error_message;
use crate::report::{ConversionIssue, ConversionReport, ConversionTarget, IssueSeverity, IssueV, ReportV, issues_view, spec_from_issues};
use crate::parser::markdown::{MarkdownParser, spec_parse_markdown};
use crate::utils::text::str_eq;

verus! {

broadcast use crate::models::block::group_view_lemmas;

/// A warning for content that is rendered in a reduced form.
pub open spec fn degraded(feature: Seq<char>, message: Seq<char>) -> IssueV {
    IssueV { feature, message, severity: IssueSeverity::Warning, degraded: true }
}

/// A warning for content that is rendered another way, without loss.
pub open spec fn non_degraded(feature: Seq<char>, message: Seq<char>) -> IssueV {
    IssueV { feature, message, severity: IssueSeverity::Warning, degraded: false }
}

pub open spec fn hwpx_image_issue() -> IssueV {
    degraded("HWPX image"@, "HWPX strict mode does not support images; compat mode falls back to visible alt text"@)
}

pub open spec fn hwpx_code_block_issue() -> IssueV {
    degraded(
        "HWPX unsupported rich block"@,
        "HWPX strict mode does not support code blocks; compat mode falls back to visible text"@,
    )
}

pub open spec fn hwpx_thematic_break_issue() -> IssueV {
    degraded(
        "HWPX unsupported rich block"@,
        "HWPX strict mode does not support thematic breaks; compat mode falls back to visible text"@,
    )
}

pub open spec fn hwpx_ordered_list_issue() -> IssueV {
    non_degraded(
        "HWPX ordered list in strict mode"@,
        "HWPX strict mode rejects ordered lists; compat mode uses the semantic ordered-list contract"@,
    )
}

/// The HWPX issues of a run of inlines, in document order.
pub open spec fn spec_inline_issues(s: Seq<InlineV>) -> Seq<IssueV>
    decreases s,
{
    if s.len() == 0 {
        seq![]
    } else {
        spec_inline_issues(s.drop_last()) + spec_one_inline_issues(s.last())
    }
}

/// The HWPX issues of one inline: images, also inside spans and links.
pub open spec fn spec_one_inline_issues(i: InlineV) -> Seq<IssueV>
    decreases i,
{
    match i {
        InlineV::Emphasis(c) => spec_inline_issues(c),
        InlineV::Strong(c) => spec_inline_issues(c),
        InlineV::Link { text, .. } => spec_inline_issues(text),
        InlineV::Image(_) => seq![hwpx_image_issue()],
        _ => seq![],
    }
}

/// The HWPX issues of a sequence of table cells.
pub open spec fn spec_cells_issues(cells: Seq<Seq<InlineV>>) -> Seq<IssueV>
    decreases cells.len(),
{
    if cells.len() == 0 {
        seq![]
    } else {
        spec_cells_issues(cells.drop_last()) + spec_inline_issues(cells.last())
    }
}

/// The HWPX issues of table rows.
pub open spec fn spec_rows_issues(rows: Seq<Seq<Seq<InlineV>>>) -> Seq<IssueV>
    decreases rows.len(),
{
    if rows.len() == 0 {
        seq![]
    } else {
        spec_rows_issues(rows.drop_last()) + spec_cells_issues(rows.last())
    }
}

/// The HWPX issues of a sequence of blocks, in document order.
pub open spec fn spec_block_issues(s: Seq<BlockV>) -> Seq<IssueV>
    decreases s,
{
    if s.len() == 0 {
        seq![]
    } else {
        spec_block_issues(s.drop_last()) + spec_one_block_issues(s.last())
    }
}

/// The HWPX issues of list items.
pub open spec fn spec_items_issues(items: Seq<Seq<BlockV>>) -> Seq<IssueV>
    decreases items,
{
    if items.len() == 0 {
        seq![]
    } else {
        spec_items_issues(items.drop_last()) + spec_block_issues(items.last())
    }
}

/// The HWPX issues of one block.
pub open spec fn spec_one_block_issues(b: BlockV) -> Seq<IssueV>
    decreases b,
{
    match b {
        BlockV::Paragraph(c) => spec_inline_issues(c),
        BlockV::Heading { content, .. } => spec_inline_issues(content),
        BlockV::BlockQuote(inner) => spec_block_issues(inner),
        BlockV::CodeBlock { .. } => seq![hwpx_code_block_issue()],
        BlockV::ThematicBreak => seq![hwpx_thematic_break_issue()],
        BlockV::List(l) => (if l.ordered { seq![hwpx_ordered_list_issue()] } else { seq![] })
            + spec_items_issues(l.items),
        BlockV::Table(t) => spec_cells_issues(t.headers) + spec_rows_issues(t.rows),
    }
}

/// A warning for content that is rendered in a reduced form.
pub fn degraded_issue(feature: &str, message: &str) -> (i: ConversionIssue)
    ensures
        i@ == degraded(feature@, message@),
{
    ConversionIssue {
        feature: feature.to_owned(),
        message: message.to_owned(),
        severity: IssueSeverity::Warning,
        degraded: true,
    }
}

/// A warning for content that is rendered another way, without loss.
pub fn non_degraded_issue(feature: &str, message: &str) -> (i: ConversionIssue)
    ensures
        i@ == non_degraded(feature@, message@),
{
    ConversionIssue {
        feature: feature.to_owned(),
        message: message.to_owned(),
        severity: IssueSeverity::Warning,
        degraded: false,
    }
}

/// Appends the HWPX issues of a run of inlines.
pub fn collect_hwpx_inline_issues(inlines: &Vec<Inline>, issues: &mut Vec<ConversionIssue>)
    ensures
        issues_view(final(issues)@) == issues_view(old(issues)@) + spec_inline_issues(inlines_view(inlines@)),
    decreases inlines,
{
    let ghost v = inlines_view(inlines@);
    let ghost start = issues_view(issues@);
    let mut i: usize = 0;
    while i < inlines.len()
        invariant
            i <= inlines.len(),
            v == inlines_view(inlines@),
            issues_view(issues@) == start + spec_inline_issues(v.take(i as int)),
        decreases inlines.len() - i,
    {
        assert(v.take(i + 1).drop_last() == v.take(i as int));
        assert(v.take(i + 1).last() == inlines@[i as int]@);
        let ghost before = issues_view(issues@);
        proof {
            assert(decreases_to!(inlines => inlines@));
            assert(decreases_to!(inlines@ => inlines@[i as int]));
        }
        collect_one_inline_issues(&inlines[i], issues);
        assert(issues_view(issues@) == start + spec_inline_issues(v.take(i + 1)));
        i += 1;
    }
    assert(v.take(v.len() as int) == v);
}

fn collect_one_inline_issues(inline: &Inline, issues: &mut Vec<ConversionIssue>)
    ensures
        issues_view(final(issues)@) == issues_view(old(issues)@) + spec_one_inline_issues(inline@),
    decreases inline,
{
    match inline {
        Inline::Emphasis(children) => collect_hwpx_inline_issues(children, issues),
        Inline::Strong(children) => collect_hwpx_inline_issues(children, issues),
        Inline::Link { text, .. } => collect_hwpx_inline_issues(text, issues),
        Inline::Image(_) => {
            let ghost before = issues_view(issues@);
            issues.push(degraded_issue(
                "HWPX image",
                "HWPX strict mode does not support images; compat mode falls back to visible alt text",
            ));
            assert(issues_view(issues@) =~= before + seq![hwpx_image_issue()]);
        },
        _ => {
            assert(issues_view(issues@) =~= issues_view(old(issues)@) + seq![]);
        },
    }
}

/// Appends the HWPX issues of a sequence of table cells.
fn collect_cells_issues(cells: &Vec<Vec<Inline>>, issues: &mut Vec<ConversionIssue>)
    ensures
        issues_view(final(issues)@) == issues_view(old(issues)@) + spec_cells_issues(cells_view(cells@)),
{
    let ghost v = cells_view(cells@);
    let ghost start = issues_view(issues@);
    let mut i: usize = 0;
    while i < cells.len()
        invariant
            i <= cells.len(),
            v == cells_view(cells@),
            issues_view(issues@) == start + spec_cells_issues(v.take(i as int)),
        decreases cells.len() - i,
    {
        assert(v.take(i + 1).drop_last() == v.take(i as int));
        assert(v.take(i + 1).last() == inlines_view(cells@[i as int]@));
        collect_hwpx_inline_issues(&cells[i], issues);
        assert(issues_view(issues@) == start + spec_cells_issues(v.take(i + 1)));
        i += 1;
    }
    assert(v.take(v.len() as int) == v);
}

/// Appends the HWPX issues of table rows.
fn collect_rows_issues(rows: &Vec<TableRow>, issues: &mut Vec<ConversionIssue>)
    ensures
        issues_view(final(issues)@) == issues_view(old(issues)@) + spec_rows_issues(rows_view(rows@)),
{
    let ghost v = rows_view(rows@);
    let ghost start = issues_view(issues@);
    let mut i: usize = 0;
    while i < rows.len()
        invariant
            i <= rows.len(),
            v == rows_view(rows@),
            issues_view(issues@) == start + spec_rows_issues(v.take(i as int)),
        decreases rows.len() - i,
    {
        assert(v.take(i + 1).drop_last() == v.take(i as int));
        assert(v.take(i + 1).last() == cells_view(rows@[i as int].cells@));
        collect_cells_issues(&rows[i].cells, issues);
        assert(issues_view(issues@) == start + spec_rows_issues(v.take(i + 1)));
        i += 1;
    }
    assert(v.take(v.len() as int) == v);
}

/// Appends the HWPX issues of a sequence of blocks.
pub fn collect_hwpx_block_issues(blocks: &Vec<Block>, issues: &mut Vec<ConversionIssue>)
    ensures
        issues_view(final(issues)@) == issues_view(old(issues)@) + spec_block_issues(blocks_view(blocks@)),
    decreases blocks,
{
    let ghost v = blocks_view(blocks@);
    let ghost start = issues_view(issues@);
    let mut i: usize = 0;
    while i < blocks.len()
        invariant
            i <= blocks.len(),
            v == blocks_view(blocks@),
            issues_view(issues@) == start + spec_block_issues(v.take(i as int)),
        decreases blocks.len() - i,
    {
        assert(v.take(i + 1).drop_last() == v.take(i as int));
        assert(v.take(i + 1).last() == blocks@[i as int]@);
        proof {
            assert(decreases_to!(blocks => blocks@));
            assert(decreases_to!(blocks@ => blocks@[i as int]));
        }
        collect_one_block_issues(&blocks[i], issues);
        assert(issues_view(issues@) == start + spec_block_issues(v.take(i + 1)));
        i += 1;
    }
    assert(v.take(v.len() as int) == v);
}

fn collect_one_block_issues(block: &Block, issues: &mut Vec<ConversionIssue>)
    ensures
        issues_view(final(issues)@) == issues_view(old(issues)@) + spec_one_block_issues(block@),
    decreases block,
{
    let ghost before = issues_view(issues@);
    match block {
        Block::Paragraph(inlines) => collect_hwpx_inline_issues(inlines, issues),
        Block::Heading { content, .. } => collect_hwpx_inline_issues(content, issues),
        Block::BlockQuote(inner) => collect_hwpx_block_issues(inner, issues),
        Block::CodeBlock { .. } => {
            issues.push(degraded_issue(
                "HWPX unsupported rich block",
                "HWPX strict mode does not support code blocks; compat mode falls back to visible text",
            ));
            assert(issues_view(issues@) =~= before + seq![hwpx_code_block_issue()]);
        },
        Block::ThematicBreak => {
            issues.push(degraded_issue(
                "HWPX unsupported rich block",
                "HWPX strict mode does not support thematic breaks; compat mode falls back to visible text",
            ));
            assert(issues_view(issues@) =~= before + seq![hwpx_thematic_break_issue()]);
        },
        Block::List(list) => {
            if list.ordered {
                issues.push(non_degraded_issue(
                    "HWPX ordered list in strict mode",
                    "HWPX strict mode rejects ordered lists; compat mode uses the semantic ordered-list contract",
                ));
                assert(issues_view(issues@) =~= before + seq![hwpx_ordered_list_issue()]);
            } else {
                assert(issues_view(issues@) =~= before + seq![]);
            }
            let ghost mid = issues_view(issues@);
            let ghost items = crate::models::block::items_view(list.items@);
            let mut j: usize = 0;
            while j < list.items.len()
                invariant
                    j <= list.items.len(),
                    *block == Block::List(*list),
                    items == crate::models::block::items_view(list.items@),
                    issues_view(issues@) == mid + spec_items_issues(items.take(j as int)),
                decreases list.items.len() - j,
            {
                assert(items.take(j + 1).drop_last() == items.take(j as int));
                assert(items.take(j + 1).last() == blocks_view(list.items@[j as int].blocks@));
                proof {
                    assert(decreases_to!(*block => block->List_0));
                    assert(decreases_to!(list => list.items));
                    assert(decreases_to!(list.items => list.items@));
                    assert(decreases_to!(list.items@ => list.items@[j as int]));
                    assert(decreases_to!(list.items@[j as int] => list.items@[j as int].blocks));
                }
                collect_hwpx_block_issues(&list.items[j].blocks, issues);
                assert(issues_view(issues@) == mid + spec_items_issues(items.take(j + 1)));
                j += 1;
            }
            assert(items.take(items.len() as int) == items);
        },
        Block::Table(table) => {
            collect_cells_issues(&table.headers, issues);
            collect_rows_issues(&table.rows, issues);
        },
    }
}

/// What the issue scan keeps between events.
pub struct ScanV {
    /// The issues found so far.
    pub issues: Seq<IssueV>,
    /// How many lists are open.
    pub depth: nat,
    /// The URLs of the open images, innermost last.
    pub urls: Seq<Seq<char>>,
}

pub open spec fn deep_list_issue() -> IssueV {
    degraded("deep nested list"@, "nested lists deeper than 2 fall back to plain text in compat mode"@)
}

pub open spec fn footnote_issue() -> IssueV {
    degraded("footnote"@, "footnotes fall back to visible text in compat mode"@)
}

pub open spec fn html_issue() -> IssueV {
    degraded("HTML"@, "HTML falls back to literal text in compat mode"@)
}

pub open spec fn task_list_issue() -> IssueV {
    degraded("task list"@, "task lists fall back to visible markers in compat mode"@)
}

pub open spec fn math_issue() -> IssueV {
    degraded("math"@, "math falls back to visible text in compat mode"@)
}

/// The issue for an image that cannot be embedded.
pub open spec fn image_issue(e: DataImageErrorV) -> IssueV {
    let message = spec_error_message(spec_into_core_error(e));
    if e is UnsupportedMime {
        degraded("unsupported image mime type"@, message)
    } else {
        degraded("non-data image"@, message)
    }
}

/// The scan after one more event.
pub open spec fn spec_scan_step(sc: ScanV, ev: MdEventV) -> ScanV {
    match ev {
        MdEventV::Start(MdTagV::List(_)) => ScanV {
            issues: if sc.depth >= 2 { sc.issues.push(deep_list_issue()) } else { sc.issues },
            depth: sc.depth + 1,
            ..sc
        },
        MdEventV::Start(MdTagV::Image { url, .. }) => ScanV { urls: sc.urls.push(url), ..sc },
        MdEventV::Start(MdTagV::FootnoteDefinition(_)) => ScanV { issues: sc.issues.push(footnote_issue()), ..sc },
        MdEventV::End(TagKind::List) => ScanV { depth: if sc.depth > 0 { (sc.depth - 1) as nat } else { 0 }, ..sc },
        MdEventV::End(TagKind::Image) => if sc.urls.len() > 0 {
            let url = sc.urls.last();
            ScanV {
                urls: sc.urls.drop_last(),
                issues: match spec_parse_data_uri(url) {
                    Ok(_) => sc.issues,
                    Err(e) => sc.issues.push(image_issue(e)),
                },
                ..sc
            }
        } else {
            sc
        },
        MdEventV::Html(_) => ScanV { issues: sc.issues.push(html_issue()), ..sc },
        MdEventV::InlineHtml(_) => ScanV { issues: sc.issues.push(html_issue()), ..sc },
        MdEventV::FootnoteReference(_) => ScanV { issues: sc.issues.push(footnote_issue()), ..sc },
        MdEventV::TaskListMarker(_) => ScanV { issues: sc.issues.push(task_list_issue()), ..sc },
        MdEventV::InlineMath(_) => ScanV { issues: sc.issues.push(math_issue()), ..sc },
        MdEventV::DisplayMath(_) => ScanV { issues: sc.issues.push(math_issue()), ..sc },
        _ => sc,
    }
}

/// The scan after a sequence of events.
pub open spec fn spec_scan(evs: Seq<MdEventV>) -> ScanV
    decreases evs.len(),
{
    if evs.len() == 0 {
        ScanV { issues: seq![], depth: 0, urls: seq![] }
    } else {
        spec_scan_step(spec_scan(evs.drop_last()), evs.last())
    }
}

/// The issues that the tokenizer's events show, in document order: raw HTML,
/// footnotes, task lists, math, lists nested deeper than two, and images that
/// cannot be embedded.
pub open spec fn spec_parser_issues(evs: Seq<MdEventV>) -> Seq<IssueV> {
    spec_scan(evs).issues
}

pub open spec fn strs_view(s: Seq<String>) -> Seq<Seq<char>> {
    s.map_values(|u: String| u@)
}

/// Scans the tokenizer's events for issues.
pub fn collect_issues_from_events(events: &Vec<MdEvent>) -> (issues: Vec<ConversionIssue>)
    ensures
        issues_view(issues@) == spec_parser_issues(events_view(events@)),
{
    let ghost evs = events_view(events@);
    let mut issues: Vec<ConversionIssue> = Vec::new();
    let mut list_depth: usize = 0;
    let mut image_urls: Vec<String> = Vec::new();
    let mut i: usize = 0;
    assert(issues_view(issues@) =~= seq![]);
    assert(strs_view(image_urls@) =~= seq![]);
    while i < events.len()
        invariant
            i <= events.len(),
            evs == events_view(events@),
            list_depth <= i,
            spec_scan(evs.take(i as int)).issues == issues_view(issues@),
            spec_scan(evs.take(i as int)).depth == list_depth as nat,
            spec_scan(evs.take(i as int)).urls == strs_view(image_urls@),
        decreases events.len() - i,
    {
        assert(evs.take(i + 1).drop_last() == evs.take(i as int));
        assert(evs.take(i + 1).last() == events@[i as int]@);
        let ghost before_issues = issues_view(issues@);
        let ghost before_urls = image_urls@;
        match &events[i] {
            MdEvent::Start(MdTag::List(_)) => {
                if list_depth >= 2 {
                    issues.push(degraded_issue(
                        "deep nested list",
                        "nested lists deeper than 2 fall back to plain text in compat mode",
                    ));
                    assert(issues_view(issues@) =~= before_issues.push(deep_list_issue()));
                }
                list_depth += 1;
            },
            MdEvent::Start(MdTag::Image { url, .. }) => {
                image_urls.push(url.clone());
                assert(strs_view(image_urls@) =~= strs_view(before_urls).push(url@));
            },
            MdEvent::Start(MdTag::FootnoteDefinition(_)) | MdEvent::FootnoteReference(_) => {
                issues.push(degraded_issue("footnote", "footnotes fall back to visible text in compat mode"));
                assert(issues_view(issues@) =~= before_issues.push(footnote_issue()));
            },
            MdEvent::End(TagKind::List) => {
                list_depth = if list_depth > 0 { list_depth - 1 } else { 0 };
            },
            MdEvent::End(TagKind::Image) => {
                if let Some(url) = image_urls.pop() {
                    assert(strs_view(image_urls@) =~= strs_view(before_urls).drop_last());
                    match parse_data_uri(url.as_str()) {
                        Ok(_) => {},
                        Err(error) => {
                            let unsupported_mime = match &error {
                                DataImageError::UnsupportedMime { .. } => true,
                                _ => false,
                            };
                            let message = error.into_core_error().message();
                            if unsupported_mime {
                                issues.push(degraded_issue("unsupported image mime type", message.as_str()));
                                assert(issues_view(issues@) =~= before_issues.push(image_issue(error@)));
                            } else {
                                issues.push(degraded_issue("non-data image", message.as_str()));
                                assert(issues_view(issues@) =~= before_issues.push(image_issue(error@)));
                            }
                        },
                    }
                }
            },
            MdEvent::Html(_) | MdEvent::InlineHtml(_) => {
                issues.push(degraded_issue("HTML", "HTML falls back to literal text in compat mode"));
                assert(issues_view(issues@) =~= before_issues.push(html_issue()));
            },
            MdEvent::TaskListMarker(_) => {
                issues.push(degraded_issue("task list", "task lists fall back to visible markers in compat mode"));
                assert(issues_view(issues@) =~= before_issues.push(task_list_issue()));
            },
            MdEvent::InlineMath(_) | MdEvent::DisplayMath(_) => {
                issues.push(degraded_issue("math", "math falls back to visible text in compat mode"));
                assert(issues_view(issues@) =~= before_issues.push(math_issue()));
            },
            _ => {},
        }
        i += 1;
    }
    assert(evs.take(evs.len() as int) == evs);
    issues
}

/// Scans a markdown text for issues.
pub fn collect_parser_issues(markdown: &str) -> (issues: Vec<ConversionIssue>)
    ensures
        issues_view(issues@) == spec_parser_issues(spec_markdown_events(markdown@)),
{
    let events = markdown_events(markdown);
    collect_issues_from_events(&events)
}

/// The features that strict mode refuses for a target.
pub open spec fn spec_is_strict_error_feature(target: ConversionTarget, f: Seq<char>) -> bool {
    f == "HTML"@ || f == "footnote"@ || f == "task list"@ || f == "math"@ || f == "non-data image"@
        || f == "unsupported image mime type"@ || f == "deep nested list"@ || (target
        == ConversionTarget::Hwpx && (f == "HWPX ordered list in strict mode"@ || f == "HWPX image"@ || f
        == "HWPX unsupported rich block"@))
}

/// An issue as strict mode reports it: a refused feature is an error, not a fallback.
pub open spec fn spec_strict_issue(target: ConversionTarget, i: IssueV) -> IssueV {
    if spec_is_strict_error_feature(target, i.feature) {
        IssueV { severity: IssueSeverity::Error, degraded: false, ..i }
    } else {
        i
    }
}

/// The report for a conversion mode: unchanged in compat mode; in strict mode every
/// refused feature becomes an error.
pub open spec fn spec_report_for_mode(r: ReportV, target: ConversionTarget, strict: bool) -> ReportV {
    if !strict {
        r
    } else {
        spec_from_issues(Seq::new(r.issues.len(), |k: int| spec_strict_issue(target, r.issues[k])))
    }
}

/// The report of an analysis: the tokenizer's issues, and for HWPX the issues of
/// the document as compat mode parses it.
pub open spec fn spec_analyze(markdown: Seq<char>, target: ConversionTarget) -> ReportV {
    let doc_issues = if target == ConversionTarget::Hwpx {
        match spec_parse_markdown(false, markdown) {
            Ok(blocks) => spec_block_issues(blocks),
            Err(_) => seq![],
        }
    } else {
        seq![]
    };
    spec_from_issues(spec_parser_issues(spec_markdown_events(markdown)) + doc_issues)
}

/// Whether strict mode refuses a feature for a target.
pub fn is_strict_error_feature(target: ConversionTarget, feature: &str) -> (b: bool)
    ensures
        b == spec_is_strict_error_feature(target, feature@),
{
    str_eq(feature, "HTML") || str_eq(feature, "footnote") || str_eq(feature, "task list") || str_eq(
        feature,
        "math",
    ) || str_eq(feature, "non-data image") || str_eq(feature, "unsupported image mime type") || str_eq(
        feature,
        "deep nested list",
    ) || (target == ConversionTarget::Hwpx && (str_eq(feature, "HWPX ordered list in strict mode")
        || str_eq(feature, "HWPX image") || str_eq(feature, "HWPX unsupported rich block")))
}

/// The report for a conversion mode.
pub fn report_for_mode(report: &ConversionReport, target: ConversionTarget, strict_mode: bool) -> (r: ConversionReport)
    ensures
        r@ == spec_report_for_mode(report@, target, strict_mode),
{
    if !strict_mode {
        return report.duplicate();
    }
    let ghost s = report@.issues;
    let mut issues: Vec<ConversionIssue> = Vec::new();
    let mut i: usize = 0;
    while i < report.issues.len()
        invariant
            i <= report.issues.len(),
            s == issues_view(report.issues@),
            issues_view(issues@) == Seq::new(i as nat, |k: int| spec_strict_issue(target, s[k])),
        decreases report.issues.len() - i,
    {
        let mut issue = report.issues[i].duplicate();
        if is_strict_error_feature(target, issue.feature.as_str()) {
            issue.severity = IssueSeverity::Error;
            issue.degraded = false;
        }
        let ghost prev = issues_view(issues@);
        let ghost iv = issue@;
        assert(s[i as int] == report.issues@[i as int]@);
        issues.push(issue);
        assert(issues_view(issues@) =~= prev.push(iv));
        assert(issues_view(issues@) =~= Seq::new((i + 1) as nat, |k: int| spec_strict_issue(target, s[k])));
        i += 1;
    }
    ConversionReport::from_issues(issues)
}

/// Analyzes markdown for a target.
pub fn analyze_markdown_impl(markdown: &str, target: ConversionTarget) -> (r: ConversionReport)
    ensures
        r@ == spec_analyze(markdown@, target),
{
    let mut issues = collect_parser_issues(markdown);
    let ghost parser_issues = issues_view(issues@);
    if target == ConversionTarget::Hwpx {
        match MarkdownParser::new(false).parse(markdown) {
            Ok(document) => collect_hwpx_block_issues(&document.blocks, &mut issues),
            Err(_) => {
                assert(issues_view(issues@) =~= parser_issues + seq![]);
            },
        }
    } else {
        assert(issues_view(issues@) =~= parser_issues + seq![]);
    }
    ConversionReport::from_issues(issues)
}

} // verus!
