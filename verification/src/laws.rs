//! Properties that hold of the library as a whole: what every report keeps, what
//! escaping guarantees, and what the generators' layouts promise.
use vstd::prelude::*;
use crate::error::{ErrorV, spec_error_message};
use crate::report::{
    IssueSeverity, IssueV, ReportV, count_degraded, count_errors, first_match, spec_dedup,
    spec_from_issues, spec_with_error_issue,
};
use crate::generators::hwpx::items::{SectionItemV, spec_equal_widths};
use crate::generators::hwpx::runs::{RunV, spec_merge_runs};
use crate::generators::hwpx::section::{
    spec_caret_scan, spec_has_table, spec_list_caret, spec_preview_caret, spec_run_text, spec_visible,
};
use crate::generators::hwpx::items::spec_row_paragraphs;
use crate::utils::text::{lemma_lex_asym, lemma_lex_total, lemma_lex_trans, lex_lt};
use crate::parser::markdown::machine::{
    StateV, spec_close_image, spec_close_link, spec_handle_end, spec_handle_start, spec_run, spec_step,
};
use crate::parser::markdown::source::MdEventV;
use crate::parser::markdown::spec_parse_markdown;
use crate::generators::hwpx::collect::{
    spec_collect, spec_section_items, spec_top_block, spec_unordered, spec_unordered_block,
    spec_unordered_blocks, spec_unordered_items,
};
use crate::generators::hwpx::items::{OrderedListShape, spec_build_table, spec_flatten_cells, spec_table_rows};
use crate::generators::hwpx::runs::{spec_flatten, spec_flatten_one, spec_raw_runs, spec_raw_runs_one, spec_render_runs};
use crate::models::block::{BlockV, ListBlockV, TableBlockV};
use crate::models::inline::InlineV;
use crate::generators::docx::DocxOptions;
use crate::{
    GenerationFailure, GenerationResult, CoreRsError, HwpxOptions, HwpxPackageParts, docx_report_holds,
    generate_docx_holds, generate_hwpx_holds, hwpx_report_holds, with_report_holds,
};
use crate::error::ErrorKind;
use crate::generators::docx::markup::{CtxV, align_properties, column_alignment, spec_render_inlines, spec_row_cells};
use crate::generators::docx::xml_builder::{RunStyle, spec_paragraph, spec_plain_style};
use crate::utils::text::{occurs_at, spec_contains};
use crate::generators::hwpx::items::{ListSemantic, spec_heading_style};
use crate::generators::hwpx::runs::BOLD_CHAR_PR;
use crate::models::block::TableAlignment;
use crate::parser::markdown::state::ContainerV;
use crate::parser::markdown::source::MdTagV;
use crate::parser::hwpx::registry::{HeadingType, ParaDefinition, is_named, spec_headings_upto};
use crate::utils::xml_reader::{XmlNodeV, spec_attribute, spec_required_u32};
use crate::generators::hwpx::generator::spec_hwpx_entries;
use crate::parser::hwpx::package::{
    LoadErrorV, LoadedV, MAX_ENTRY_BYTES, MAX_TOTAL_ARCHIVE_BYTES, ScanV, spec_load, spec_scan,
};
use crate::utils::text::spec_starts_with;
use crate::utils::zip_archiver::{bytes_prefix, reads_back};
use crate::utils::zip_reader::{spec_zip_entry_count, spec_zip_entry_name, spec_zip_entry_prefix};
use vstd::utf8::encode_utf8;
use crate::diagnostics::spec_report_for_mode;
use crate::generators::hwpx::normalize::{
    is_ascii_digit, leading_digits, spec_is_ordered_list_marker, spec_normalize_from, spec_normalize_line,
    spec_normalize_markdown,
};
use crate::utils::text::spec_find_from;
use crate::tools::decode_hwpx::{
    spec_join_components, spec_join_path, spec_normal_components, spec_resolve_output_path, spec_split,
    spec_trim_to_utf8,
};
use crate::utils::zip_archiver::{EntryV, spec_insert_by_path, spec_sort_by_path};
use crate::utils::xml_helper::{
    escape_attr_char, escape_text_char, replacement_char, spec_escape_attr, spec_escape_text,
    spec_is_valid_xml_char,
};

use crate::diagnostics::{
    hwpx_ordered_list_issue, spec_analyze, spec_block_issues, spec_cells_issues, spec_inline_issues,
    spec_items_issues, spec_one_block_issues, spec_one_inline_issues, spec_parser_issues, spec_rows_issues,
};
use crate::parser::markdown::source::spec_markdown_events;
use crate::report::ConversionTarget;

verus! {

/// No two positions of the sequence hold the same issue.
pub open spec fn no_duplicates(s: Seq<IssueV>) -> bool {
    forall|i: int, j: int| 0 <= i < j < s.len() ==> s[i] != s[j]
}

proof fn lemma_dedup(s: Seq<IssueV>)
    ensures
        no_duplicates(spec_dedup(s)),
        forall|x: IssueV| spec_dedup(s).contains(x) <==> s.contains(x),
        spec_dedup(s).len() <= s.len(),
    decreases s.len(),
{
    if s.len() > 0 {
        let p = s.drop_last();
        lemma_dedup(p);
        let d = spec_dedup(p);
        assert forall|x: IssueV| spec_dedup(s).contains(x) <==> s.contains(x) by {
            if s.contains(x) {
                let k = choose|k: int| 0 <= k < s.len() && s[k] == x;
                if k < s.len() - 1 {
                    assert(p[k] == x);
                    assert(p.contains(x));
                    assert(d.contains(x));
                    let m = choose|m: int| 0 <= m < d.len() && d[m] == x;
                    if !d.contains(s.last()) {
                        assert(d.push(s.last())[m] == x);
                    }
                } else {
                    assert(x == s.last());
                    if !d.contains(s.last()) {
                        assert(d.push(s.last())[d.len() as int] == x);
                    }
                }
            }
            if spec_dedup(s).contains(x) {
                if d.contains(x) {
                    assert(p.contains(x));
                    let k = choose|k: int| 0 <= k < p.len() && p[k] == x;
                    assert(s[k] == x);
                } else {
                    let ds = spec_dedup(s);
                    let j = choose|j: int| 0 <= j < ds.len() && ds[j] == x;
                    if j < d.len() {
                        assert(d[j] == x);
                    }
                    assert(x == s.last());
                    assert(s[s.len() - 1] == x);
                }
            }
        }
        if !d.contains(s.last()) {
            assert forall|i: int, j: int| 0 <= i < j < d.push(s.last()).len() implies d.push(s.last())[i] != d.push(s.last())[j] by {
                if j == d.len() {
                    assert(d[i] == d.push(s.last())[i]);
                }
            }
        }
    }
}

proof fn lemma_dedup_of_unique(s: Seq<IssueV>)
    requires
        no_duplicates(s),
    ensures
        spec_dedup(s) == s,
    decreases s.len(),
{
    if s.len() > 0 {
        let p = s.drop_last();
        assert(no_duplicates(p)) by {
            assert forall|i: int, j: int| 0 <= i < j < p.len() implies p[i] != p[j] by {
                assert(p[i] == s[i] && p[j] == s[j]);
            }
        }
        lemma_dedup_of_unique(p);
        assert(!p.contains(s.last())) by {
            if p.contains(s.last()) {
                let k = choose|k: int| 0 <= k < p.len() && p[k] == s.last();
                assert(s[k] == s[s.len() - 1]);
            }
        }
        assert(p.push(s.last()) =~= s);
    }
}

/// A report keeps each issue once, in order of first occurrence, and keeps every
/// issue that it was given: its issues hold no duplicates and are exactly the
/// given ones as a set. Its fallback count is positive exactly when it is
/// degraded, and no count exceeds the number of issues.
pub proof fn law_report_keeps_each_issue_once(s: Seq<IssueV>)
    ensures
        no_duplicates(spec_from_issues(s).issues),
        forall|x: IssueV| spec_from_issues(s).issues.contains(x) <==> s.contains(x),
        spec_from_issues(s).degraded <==> spec_from_issues(s).fallback_count > 0,
        spec_from_issues(s).unsupported_count <= spec_from_issues(s).issues.len(),
        spec_from_issues(s).fallback_count <= spec_from_issues(s).issues.len(),
{
    lemma_dedup(s);
    lemma_counts_bounded(spec_dedup(s));
}

proof fn lemma_counts_bounded(s: Seq<IssueV>)
    ensures
        count_errors(s) <= s.len(),
        count_degraded(s) <= s.len(),
    decreases s.len(),
{
    if s.len() > 0 {
        lemma_counts_bounded(s.drop_last());
    }
}

/// Building a report from a report's issues gives the same report.
pub proof fn law_report_is_stable(s: Seq<IssueV>)
    ensures
        spec_from_issues(spec_from_issues(s).issues) == spec_from_issues(s),
{
    lemma_dedup(s);
    lemma_dedup_of_unique(spec_dedup(s));
}

proof fn lemma_count_errors_positive(s: Seq<IssueV>, k: int)
    requires
        0 <= k < s.len(),
        s[k].severity == IssueSeverity::Error,
    ensures
        count_errors(s) >= 1,
    decreases s.len(),
{
    if k < s.len() - 1 {
        lemma_count_errors_positive(s.drop_last(), k);
    }
}

/// Once an error is recorded in a report, the report holds an error issue with the
/// error's message and counts at least one unsupported feature.
pub proof fn law_recorded_error_is_reported(r: ReportV, e: ErrorV)
    ensures
        exists|k: int|
            0 <= k < spec_with_error_issue(r, e).issues.len()
                && (#[trigger] spec_with_error_issue(r, e).issues[k]).severity == IssueSeverity::Error
                && spec_with_error_issue(r, e).issues[k].message == spec_error_message(e),
        spec_with_error_issue(r, e).unsupported_count >= 1,
{
    let input = match first_match(r.issues, e) {
        Some(k) => r.issues.update(
            k,
            IssueV {
                feature: r.issues[k].feature,
                message: spec_error_message(e),
                severity: IssueSeverity::Error,
                degraded: false,
            },
        ),
        None => r.issues.push(crate::report::spec_error_issue(e)),
    };
    let issue = match first_match(r.issues, e) {
        Some(k) => IssueV {
            feature: r.issues[k].feature,
            message: spec_error_message(e),
            severity: IssueSeverity::Error,
            degraded: false,
        },
        None => crate::report::spec_error_issue(e),
    };
    crate::report::lemma_first_match(r.issues, e);
    assert(spec_with_error_issue(r, e) == spec_from_issues(input));
    assert(input.contains(issue)) by {
        match first_match(r.issues, e) {
            Some(k) => assert(input[k] == issue),
            None => assert(input[input.len() - 1] == issue),
        }
    }
    lemma_dedup(input);
    let d = spec_dedup(input);
    assert(d.contains(issue));
    let k = choose|k: int| 0 <= k < d.len() && d[k] == issue;
    lemma_count_errors_positive(d, k);
    assert(spec_with_error_issue(r, e).issues[k] == issue);
}

/// Escaped character data holds no markup delimiters and only characters that XML
/// allows: no `<` or `>`, and every character valid in XML.
pub proof fn law_escaped_text_is_character_data(s: Seq<char>)
    ensures
        forall|i: int| 0 <= i < spec_escape_text(s).len() ==> {
            let c = #[trigger] spec_escape_text(s)[i];
            c != '<' && c != '>' && spec_is_valid_xml_char(c)
        },
    decreases s.len(),
{
    if s.len() > 0 {
        law_escaped_text_is_character_data(s.drop_last());
        lemma_escape_char_safe(s.last());
        let a = spec_escape_text(s.drop_last());
        let b = escape_text_char(s.last());
        assert forall|i: int| 0 <= i < (a + b).len() implies {
            let c = #[trigger] (a + b)[i];
            c != '<' && c != '>' && spec_is_valid_xml_char(c)
        } by {
            if i >= a.len() {
                assert((a + b)[i] == b[i - a.len()]);
            } else {
                assert((a + b)[i] == a[i]);
            }
        }
    }
}

proof fn lemma_escape_char_safe(c: char)
    ensures
        forall|i: int| 0 <= i < escape_text_char(c).len() ==> {
            let d = #[trigger] escape_text_char(c)[i];
            d != '<' && d != '>' && d != '"' && d != '\'' && spec_is_valid_xml_char(d)
        } || (c == '"' || c == '\''),
        forall|i: int| 0 <= i < escape_text_char(c).len() ==> {
            let d = #[trigger] escape_text_char(c)[i];
            d != '<' && d != '>' && spec_is_valid_xml_char(d)
        },
{
    reveal_strlit("&amp;");
    reveal_strlit("&lt;");
    reveal_strlit("&gt;");
}

/// An escaped attribute value also holds no quotation marks or apostrophes, so it
/// cannot end the attribute that holds it.
pub proof fn law_escaped_attribute_stays_inside_quotes(s: Seq<char>)
    ensures
        forall|i: int| 0 <= i < spec_escape_attr(s).len() ==> {
            let c = #[trigger] spec_escape_attr(s)[i];
            c != '<' && c != '>' && c != '"' && c != '\'' && spec_is_valid_xml_char(c)
        },
    decreases s.len(),
{
    if s.len() > 0 {
        law_escaped_attribute_stays_inside_quotes(s.drop_last());
        let l = s.last();
        reveal_strlit("&quot;");
        reveal_strlit("&apos;");
        lemma_escape_char_safe(l);
        let a = spec_escape_attr(s.drop_last());
        let b = escape_attr_char(l);
        assert forall|i: int| 0 <= i < b.len() implies {
            let d = #[trigger] b[i];
            d != '<' && d != '>' && d != '"' && d != '\'' && spec_is_valid_xml_char(d)
        } by {
            if l != '"' && l != '\'' {
                assert(b[i] == escape_text_char(l)[i]);
            }
        }
        assert forall|i: int| 0 <= i < (a + b).len() implies {
            let c = #[trigger] (a + b)[i];
            c != '<' && c != '>' && c != '"' && c != '\'' && spec_is_valid_xml_char(c)
        } by {
            if i >= a.len() {
                assert((a + b)[i] == b[i - a.len()]);
            } else {
                assert((a + b)[i] == a[i]);
            }
        }
    }
}

/// Merging adjacent runs leaves no two neighbouring runs with the same character
/// properties, and keeps the paragraph's text: the merged runs' texts, run
/// together, are the given runs' texts run together.
pub proof fn law_merged_runs_alternate_and_keep_text(runs: Seq<RunV>)
    ensures
        forall|i: int| 0 <= i < spec_merge_runs(runs).len() - 1 ==> #[trigger] spec_merge_runs(runs)[i].0 != spec_merge_runs(runs)[i + 1].0,
        spec_run_text(spec_merge_runs(runs)) == spec_run_text(runs),
    decreases runs.len(),
{
    if runs.len() > 0 {
        let p = runs.drop_last();
        law_merged_runs_alternate_and_keep_text(p);
        let m = spec_merge_runs(p);
        let r = runs.last();
        if m.len() > 0 && m.last().0 == r.0 {
            let n = m.update(m.len() - 1, (r.0, m.last().1 + r.1));
            assert(n.drop_last() =~= m.drop_last());
            assert(spec_run_text(m) == spec_run_text(m.drop_last()) + m.last().1);
            assert(spec_run_text(n) == spec_run_text(n.drop_last()) + n.last().1);
            assert(spec_run_text(n) =~= spec_run_text(m) + r.1);
            assert forall|i: int| 0 <= i < n.len() - 1 implies #[trigger] n[i].0 != n[i + 1].0 by {
                assert(n[i] == m[i]);
                assert(n[i + 1].0 == m[i + 1].0);
            }
        } else {
            let n = m.push(r);
            assert(n.drop_last() =~= m);
            assert forall|i: int| 0 <= i < n.len() - 1 implies #[trigger] n[i].0 != n[i + 1].0 by {
                assert(n[i] == m[i]);
                if i + 1 < m.len() {
                    assert(n[i + 1] == m[i + 1]);
                }
            }
        }
        assert(runs.drop_last() == p);
    }
}

/// The sum of column widths.
pub open spec fn sum_widths(w: Seq<u32>) -> nat
    decreases w.len(),
{
    if w.len() == 0 {
        0
    } else {
        sum_widths(w.drop_last()) + (w.last() as nat)
    }
}

proof fn lemma_sum_equal_prefix(w: Seq<u32>, base: u32, k: int)
    requires
        0 <= k <= w.len(),
        forall|i: int| 0 <= i < k ==> w[i] == base,
    ensures
        sum_widths(w.take(k)) == base * k,
    decreases k,
{
    if k > 0 {
        lemma_sum_equal_prefix(w, base, k - 1);
        assert(w.take(k).drop_last() =~= w.take(k - 1));
        assert(w.take(k).last() == base);
        assert(sum_widths(w.take(k)) == sum_widths(w.take(k - 1)) + base);
        assert(base * k == base * (k - 1) + base) by (nonlinear_arith);
    } else {
        assert(w.take(0).len() == 0);
    }
}

/// Table columns share the table width: for one column or more, the widths add up
/// to exactly the table width, 41954.
pub proof fn law_columns_fill_table_width(count: nat)
    requires
        count > 0,
    ensures
        spec_equal_widths(count).len() == count,
        sum_widths(spec_equal_widths(count)) == 41954,
{
    let w = spec_equal_widths(count);
    let base = (41954nat / count) as u32;
    let rem = (41954nat % count) as u32;
    assert(41954nat / count <= 41954) by (nonlinear_arith)
        requires
            count > 0,
    ;
    assert(41954nat == (41954nat / count) * count + 41954nat % count) by (nonlinear_arith)
        requires
            count > 0,
    ;
    assert(base * (count - 1) + base + rem == 41954) by (nonlinear_arith)
        requires
            base == 41954nat / count,
            rem == 41954nat % count,
            41954nat == (41954nat / count) * count + 41954nat % count,
    ;
    lemma_sum_equal_prefix(w, base, count - 1);
    assert(w.take(count as int) =~= w);
    assert(w.take(count as int).drop_last() =~= w.take(count - 1));
    assert(w[count - 1] == base + rem);
}

/// The preview caret names a line that the preview has and sits at its end.
pub open spec fn caret_at_line_end(vis: Seq<Seq<char>>, c: (nat, nat)) -> bool {
    c.0 < vis.len() && c.1 == vis[c.0 as int].len()
}

proof fn lemma_caret_scan(items: Seq<SectionItemV>)
    ensures
        spec_caret_scan(items).0 == spec_visible(items).len(),
        spec_caret_scan(items).1 matches Some(c) ==> caret_at_line_end(spec_visible(items), c),
        forall|k: int| 0 <= k < spec_caret_scan(items).2.len() ==> caret_at_line_end(spec_visible(items), #[trigger] spec_caret_scan(items).2[k].1),
    decreases items.len(),
{
    if items.len() > 0 {
        let p = items.drop_last();
        lemma_caret_scan(p);
        let vp = spec_visible(p);
        let v = spec_visible(items);
        let added = match items.last() {
            SectionItemV::Paragraph(_, runs) => seq![spec_run_text(runs)],
            SectionItemV::Table(t) => spec_row_paragraphs(t.rows),
        };
        assert(v == vp + added);
        assert forall|c: (nat, nat)| caret_at_line_end(vp, c) implies caret_at_line_end(v, c) by {
            assert(v[c.0 as int] == vp[c.0 as int]);
        }
        let sp = spec_caret_scan(p);
        let sc = spec_caret_scan(items);
        match items.last() {
            SectionItemV::Paragraph(style, runs) => {
                let caret = (sp.0, spec_run_text(runs).len());
                assert(v[sp.0 as int] == spec_run_text(runs));
                assert(caret_at_line_end(v, caret));
                assert forall|k: int| 0 <= k < sc.2.len() implies caret_at_line_end(v, #[trigger] sc.2[k].1) by {
                    if k < sp.2.len() {
                        assert(sc.2[k] == sp.2[k]);
                        assert(caret_at_line_end(vp, sp.2[k].1));
                    }
                }
            },
            SectionItemV::Table(t) => {
                assert forall|k: int| 0 <= k < sc.2.len() implies caret_at_line_end(v, #[trigger] sc.2[k].1) by {
                    assert(sc.2[k] == sp.2[k]);
                    assert(caret_at_line_end(vp, sp.2[k].1));
                }
            },
        }
        if sc.1 is Some {
            if sp.1 is Some && sc.1 == sp.1 {
                assert(caret_at_line_end(vp, sp.1->Some_0));
            }
        }
    }
}

/// The caret that a preview records: where the items hold a table, line 0 at
/// offset 16; else, where list paragraphs call for one, the end of an existing
/// preview line; else line 0 at offset 45.
pub proof fn law_preview_caret_ends_a_line(items: Seq<SectionItemV>)
    ensures
        spec_has_table(items) ==> spec_preview_caret(items) == (0nat, 16nat),
        !spec_has_table(items) && spec_list_caret(items) is Some ==> caret_at_line_end(spec_visible(items), spec_preview_caret(items)),
        !spec_has_table(items) && spec_list_caret(items) is None ==> spec_preview_caret(items) == (0nat, 45nat),
{
    lemma_caret_scan(items);
    let sc = spec_caret_scan(items);
    if sc.2.len() > 0 {
        assert(caret_at_line_end(spec_visible(items), sc.2[sc.2.len() - 1].1));
        if sc.2.len() > 1 {
            assert(caret_at_line_end(spec_visible(items), sc.2[sc.2.len() - 2].1));
        }
    }
}

/// Entries sorted by path: no entry's path sorts before that of an entry ahead of it.
pub open spec fn sorted_by_path(s: Seq<EntryV>) -> bool {
    forall|i: int, j: int| 0 <= i < j < s.len() ==> !lex_lt(#[trigger] s[j].0, #[trigger] s[i].0)
}

proof fn lemma_insert_sorted(sorted: Seq<EntryV>, e: EntryV)
    requires
        sorted_by_path(sorted),
    ensures
        sorted_by_path(spec_insert_by_path(sorted, e)),
        spec_insert_by_path(sorted, e).to_multiset() == sorted.to_multiset().insert(e),
        forall|x: EntryV| #[trigger] spec_insert_by_path(sorted, e).contains(x) ==> sorted.contains(x) || x == e,
    decreases sorted.len(),
{
    broadcast use vstd::seq_lib::group_to_multiset_ensures;
    if sorted.len() == 0 {
        assert(seq![e] =~= Seq::<EntryV>::empty().push(e));
    } else {
        let last = sorted.last();
        let p = sorted.drop_last();
        if lex_lt(e.0, last.0) {
            assert(sorted_by_path(p)) by {
                assert forall|i: int, j: int| 0 <= i < j < p.len() implies !lex_lt(#[trigger] p[j].0, #[trigger] p[i].0) by {
                    assert(p[i] == sorted[i] && p[j] == sorted[j]);
                }
            }
            lemma_insert_sorted(p, e);
            let q = spec_insert_by_path(p, e);
            let out = q.push(last);
            assert forall|i: int, j: int| 0 <= i < j < out.len() implies !lex_lt(#[trigger] out[j].0, #[trigger] out[i].0) by {
                if j == out.len() - 1 {
                    assert(out[j] == last);
                    assert(out[i] == q[i]);
                    assert(q.contains(q[i]));
                    if q[i] == e {
                        lemma_lex_asym(e.0, last.0);
                    } else {
                        let k = choose|k: int| 0 <= k < p.len() && p[k] == q[i];
                        assert(sorted[k] == q[i]);
                        assert(!lex_lt(sorted[sorted.len() - 1].0, sorted[k].0));
                    }
                } else {
                    assert(out[i] == q[i] && out[j] == q[j]);
                }
            }
            assert(p.push(last) =~= sorted);
            assert forall|x: EntryV| #[trigger] out.contains(x) implies sorted.contains(x) || x == e by {
                let k = choose|k: int| 0 <= k < out.len() && out[k] == x;
                if k == out.len() - 1 {
                    assert(sorted[sorted.len() - 1] == x);
                } else {
                    assert(q[k] == x);
                    assert(q.contains(x));
                    if x != e {
                        let m = choose|m: int| 0 <= m < p.len() && p[m] == x;
                        assert(sorted[m] == x);
                    }
                }
            }
        } else {
            let out = sorted.push(e);
            assert forall|i: int, j: int| 0 <= i < j < out.len() implies !lex_lt(#[trigger] out[j].0, #[trigger] out[i].0) by {
                if j == out.len() - 1 {
                    assert(out[i] == sorted[i]);
                    if i < sorted.len() - 1 {
                        assert(!lex_lt(sorted[sorted.len() - 1].0, sorted[i].0));
                        lemma_lex_total(sorted[i].0, last.0);
                        if lex_lt(e.0, sorted[i].0) {
                            if lex_lt(sorted[i].0, last.0) {
                                lemma_lex_trans(e.0, sorted[i].0, last.0);
                            }
                        }
                    }
                } else {
                    assert(out[i] == sorted[i] && out[j] == sorted[j]);
                }
            }
            assert forall|x: EntryV| #[trigger] out.contains(x) implies sorted.contains(x) || x == e by {
                let k = choose|k: int| 0 <= k < out.len() && out[k] == x;
                if k < sorted.len() {
                    assert(sorted[k] == x);
                }
            }
        }
    }
}

/// Packing for DOCX sorts the entries by path: the result is sorted, and holds
/// exactly the given entries, each as often as it was given.
pub proof fn law_sorted_entries_are_a_sorted_permutation(s: Seq<EntryV>)
    ensures
        sorted_by_path(spec_sort_by_path(s)),
        spec_sort_by_path(s).to_multiset() == s.to_multiset(),
    decreases s.len(),
{
    broadcast use vstd::seq_lib::group_to_multiset_ensures;
    if s.len() == 0 {
        assert(s.to_multiset() =~= Seq::<EntryV>::empty().to_multiset());
    } else {
        law_sorted_entries_are_a_sorted_permutation(s.drop_last());
        lemma_insert_sorted(spec_sort_by_path(s.drop_last()), s.last());
        assert(s.drop_last().push(s.last()) =~= s);
    }
}

proof fn lemma_strict_step_is_lenient_step(st: StateV, ev: MdEventV)
    requires
        spec_step(true, st, ev) is Ok,
    ensures
        spec_step(false, st, ev) == spec_step(true, st, ev),
{
    if st.depth == 0 {
        match ev {
            MdEventV::Start(tag) => {},
            MdEventV::End(kind) => {
                let cs = st.containers;
                let is = st.inlines;
                if is.len() > 0 {
                    let top = is.last();
                    let rest = crate::parser::markdown::machine::with_inlines(st, is.drop_last());
                    if top is Link {
                        assert(spec_close_link(true, rest, top->Link_url, top->Link_content) is Ok
                            ==> spec_close_link(false, rest, top->Link_url, top->Link_content)
                                == spec_close_link(true, rest, top->Link_url, top->Link_content));
                    }
                    if top is Image {
                        assert(spec_close_image(true, rest, top->Image_url, top->Image_title, top->Image_alt) is Ok
                            ==> spec_close_image(false, rest, top->Image_url, top->Image_title, top->Image_alt)
                                == spec_close_image(true, rest, top->Image_url, top->Image_title, top->Image_alt));
                    }
                }
            },
            _ => {},
        }
    }
}

/// Strict mode only refuses: where strict parsing of markdown succeeds, lenient
/// parsing gives the same document.
pub proof fn law_strict_parse_agrees_with_lenient(markdown: Seq<char>)
    requires
        spec_parse_markdown(true, markdown) is Ok,
    ensures
        spec_parse_markdown(false, markdown) == spec_parse_markdown(true, markdown),
{
    let evs = crate::parser::markdown::source::spec_markdown_events(markdown);
    lemma_strict_run_is_lenient_run(evs);
}

proof fn lemma_strict_run_is_lenient_run(evs: Seq<MdEventV>)
    requires
        spec_run(true, evs) is Ok,
    ensures
        spec_run(false, evs) == spec_run(true, evs),
    decreases evs.len(),
{
    if evs.len() > 0 {
        let p = evs.drop_last();
        if spec_run(true, p) is Err {
            assert(spec_run(true, evs) is Err);
        }
        lemma_strict_run_is_lenient_run(p);
        lemma_strict_step_is_lenient_step(spec_run(true, p)->Ok_0, evs.last());
    }
}

proof fn lemma_flatten_strict(s: Seq<InlineV>)
    requires
        spec_flatten(s, true) is Ok,
    ensures
        spec_flatten(s, false) == spec_flatten(s, true),
    decreases s,
{
    if s.len() > 0 {
        lemma_flatten_strict(s.drop_last());
        lemma_flatten_one_strict(s.last());
    }
}

proof fn lemma_flatten_one_strict(i: InlineV)
    requires
        spec_flatten_one(i, true) is Ok,
    ensures
        spec_flatten_one(i, false) == spec_flatten_one(i, true),
    decreases i,
{
    match i {
        InlineV::Emphasis(c) => lemma_flatten_strict(c),
        InlineV::Strong(c) => lemma_flatten_strict(c),
        InlineV::Link { text, .. } => lemma_flatten_strict(text),
        _ => {},
    }
}

proof fn lemma_raw_runs_strict(s: Seq<InlineV>, c: u32)
    requires
        spec_raw_runs(s, c, true) is Ok,
    ensures
        spec_raw_runs(s, c, false) == spec_raw_runs(s, c, true),
    decreases s,
{
    if s.len() > 0 {
        lemma_raw_runs_strict(s.drop_last(), c);
        lemma_raw_runs_one_strict(s.last(), c);
    }
}

proof fn lemma_raw_runs_one_strict(i: InlineV, c: u32)
    requires
        spec_raw_runs_one(i, c, true) is Ok,
    ensures
        spec_raw_runs_one(i, c, false) == spec_raw_runs_one(i, c, true),
    decreases i,
{
    match i {
        InlineV::Emphasis(ch) => lemma_raw_runs_strict(ch, crate::generators::hwpx::runs::spec_emphasis_char_pr(c)),
        InlineV::Strong(ch) => lemma_raw_runs_strict(ch, crate::generators::hwpx::runs::spec_strong_char_pr(c)),
        InlineV::Link { text, .. } => lemma_flatten_strict(text),
        _ => {},
    }
}

proof fn lemma_render_runs_strict(s: Seq<InlineV>, c: u32)
    requires
        spec_render_runs(s, c, true) is Ok,
    ensures
        spec_render_runs(s, c, false) == spec_render_runs(s, c, true),
{
    lemma_raw_runs_strict(s, c);
}

proof fn lemma_flatten_cells_strict(cells: Seq<Seq<InlineV>>)
    requires
        spec_flatten_cells(cells, true) is Ok,
    ensures
        spec_flatten_cells(cells, false) == spec_flatten_cells(cells, true),
    decreases cells.len(),
{
    if cells.len() > 0 {
        lemma_flatten_cells_strict(cells.drop_last());
        lemma_flatten_strict(cells.last());
    }
}

proof fn lemma_table_rows_strict(t: TableBlockV)
    requires
        spec_table_rows(t, true) is Ok,
    ensures
        spec_table_rows(t, false) == spec_table_rows(t, true),
    decreases t.rows.len(),
{
    if t.rows.len() == 0 {
        if t.headers.len() > 0 {
            lemma_flatten_cells_strict(t.headers);
        }
    } else {
        lemma_table_rows_strict(TableBlockV { rows: t.rows.drop_last(), ..t });
        lemma_flatten_cells_strict(t.rows.last());
    }
}

proof fn lemma_unordered_strict(l: ListBlockV, depth: nat)
    requires
        spec_unordered(l, true, depth) is Ok,
    ensures
        spec_unordered(l, false, depth) == spec_unordered(l, true, depth),
    decreases l, 2int,
{
    if depth <= 2 {
        lemma_unordered_items_strict(l.items, depth);
    }
}

proof fn lemma_unordered_items_strict(items: Seq<Seq<BlockV>>, depth: nat)
    requires
        spec_unordered_items(items, true, depth) is Ok,
    ensures
        spec_unordered_items(items, false, depth) == spec_unordered_items(items, true, depth),
    decreases items, 1int,
{
    if items.len() > 0 {
        lemma_unordered_items_strict(items.drop_last(), depth);
        lemma_unordered_blocks_strict(items.last(), depth);
    }
}

proof fn lemma_unordered_blocks_strict(bs: Seq<BlockV>, depth: nat)
    requires
        spec_unordered_blocks(bs, true, depth) is Ok,
    ensures
        spec_unordered_blocks(bs, false, depth) == spec_unordered_blocks(bs, true, depth),
    decreases bs, 1int,
{
    if bs.len() > 0 {
        lemma_unordered_blocks_strict(bs.drop_last(), depth);
        lemma_unordered_block_strict(bs.last(), depth);
    }
}

proof fn lemma_unordered_block_strict(b: BlockV, depth: nat)
    requires
        spec_unordered_block(b, true, depth) is Ok,
    ensures
        spec_unordered_block(b, false, depth) == spec_unordered_block(b, true, depth),
    decreases b, 0int,
{
    let c = crate::generators::hwpx::items::spec_unordered_list_style(depth).default_char_pr;
    match b {
        BlockV::Paragraph(s) => lemma_render_runs_strict(s, c),
        BlockV::Heading { content, .. } => lemma_render_runs_strict(content, c),
        BlockV::List(child) => if !child.ordered {
            lemma_unordered_strict(child, depth + 1);
        },
        _ => {},
    }
}

proof fn lemma_collect_strict(bs: Seq<BlockV>, shape: Option<OrderedListShape>)
    requires
        spec_collect(bs, true, shape) is Ok,
    ensures
        spec_collect(bs, false, shape) == spec_collect(bs, true, shape),
    decreases bs.len(),
{
    if bs.len() > 0 {
        lemma_collect_strict(bs.drop_last(), shape);
        let id = spec_collect(bs.drop_last(), true, shape)->Ok_0.1;
        let b = bs.last();
        match b {
            BlockV::Paragraph(s) => lemma_render_runs_strict(s, crate::generators::hwpx::runs::NORMAL_CHAR_PR),
            BlockV::Heading { level, content } => lemma_render_runs_strict(
                content,
                crate::generators::hwpx::items::spec_heading_style(level).default_char_pr,
            ),
            BlockV::List(l) => if !l.ordered {
                lemma_unordered_strict(l, 1);
            },
            BlockV::Table(t) => lemma_table_rows_strict(t),
            _ => {},
        }
        assert(spec_top_block(b, false, shape, id) == spec_top_block(b, true, shape, id));
    }
}

/// Strict mode only refuses in HWPX conversion too: where strict collection of a
/// document's section items succeeds, lenient collection gives the same items.
pub proof fn law_strict_section_agrees_with_lenient(blocks: Seq<BlockV>, shape: Option<OrderedListShape>)
    requires
        spec_section_items(blocks, true, shape) is Ok,
    ensures
        spec_section_items(blocks, false, shape) == spec_section_items(blocks, true, shape),
{
    lemma_collect_strict(blocks, shape);
}

/// Strict mode only refuses in DOCX conversion: where strict parsing succeeds,
/// converting in lenient mode (the same options otherwise) has the same outcomes.
pub proof fn law_strict_docx_agrees_with_lenient(markdown: Seq<char>, options: DocxOptions, r: Result<Vec<u8>, crate::error::CoreRsError>)
    requires
        options.strict_mode,
        spec_parse_markdown(true, markdown) is Ok,
    ensures
        generate_docx_holds(r, markdown, options) <==> generate_docx_holds(r, markdown, DocxOptions { strict_mode: false, ..options }),
{
    law_strict_parse_agrees_with_lenient(markdown);
}

/// A path component that cannot leave the directory it names a child of: not
/// empty, not `.` or `..`, and without a separator.
pub open spec fn safe_component(c: Seq<char>) -> bool {
    c.len() > 0 && c != "."@ && c != ".."@ && !c.contains('/')
}

proof fn lemma_split_no_sep(s: Seq<char>, sep: char)
    ensures
        forall|k: int| 0 <= k < spec_split(s, sep).len() ==> !(#[trigger] spec_split(s, sep)[k]).contains(sep),
    decreases s.len(),
{
    if s.len() > 0 {
        let before = spec_split(s.drop_last(), sep);
        lemma_split_no_sep(s.drop_last(), sep);
        crate::tools::decode_hwpx::lemma_split_nonempty(s.drop_last(), sep);
        if s.last() == sep {
            assert forall|k: int| 0 <= k < before.push(seq![]).len() implies !(#[trigger] before.push(seq![])[k]).contains(sep) by {
                if k < before.len() {
                    assert(before.push(seq![])[k] == before[k]);
                } else {
                    assert(before.push(seq![])[k] =~= Seq::<char>::empty());
                }
            }
        } else {
            let upd = before.update(before.len() - 1, before.last().push(s.last()));
            assert forall|k: int| 0 <= k < upd.len() implies !(#[trigger] upd[k]).contains(sep) by {
                if k < before.len() - 1 {
                    assert(upd[k] == before[k]);
                } else {
                    let piece = before.last().push(s.last());
                    assert(upd[k] == piece);
                    assert(!before[before.len() - 1].contains(sep));
                    if piece.contains(sep) {
                        let j = choose|j: int| 0 <= j < piece.len() && piece[j] == sep;
                        if j < before.last().len() {
                            assert(before.last()[j] == sep);
                        }
                    }
                }
            }
        }
    }
}

proof fn lemma_normal_components(parts: Seq<Seq<char>>)
    requires
        forall|k: int| 0 <= k < parts.len() ==> !(#[trigger] parts[k]).contains('/'),
    ensures
        spec_normal_components(parts) matches Some(kept) ==> forall|k: int| 0 <= k < kept.len() ==> safe_component(#[trigger] kept[k]),
    decreases parts.len(),
{
    if parts.len() > 0 {
        let p = parts.drop_last();
        assert forall|k: int| 0 <= k < p.len() implies !(#[trigger] p[k]).contains('/') by {
            assert(p[k] == parts[k]);
        }
        lemma_normal_components(p);
        match spec_normal_components(p) {
            Some(kept) => {
                let last = parts.last();
                assert(!parts[parts.len() - 1].contains('/'));
                if !(last == ".."@) && !(last.len() == 0 || last == "."@) {
                    assert forall|k: int| 0 <= k < kept.push(last).len() implies safe_component(#[trigger] kept.push(last)[k]) by {
                        if k < kept.len() {
                            assert(kept.push(last)[k] == kept[k]);
                        }
                    }
                }
            },
            None => {},
        }
    }
}

/// Extraction never leaves the output directory: a resolved path is the directory
/// joined with one or more components, none of them empty, `.`, `..` or holding a
/// separator.
pub proof fn law_extracted_paths_stay_inside(dir: Seq<char>, name: Seq<char>)
    ensures
        spec_resolve_output_path(dir, name) matches Ok(p) ==> exists|parts: Seq<Seq<char>>| {
            &&& parts.len() > 0
            &&& forall|k: int| 0 <= k < parts.len() ==> safe_component(#[trigger] parts[k])
            &&& p == spec_join_path(dir, spec_join_components(parts))
        },
{
    let pieces = spec_split(name, '/');
    lemma_split_no_sep(name, '/');
    lemma_normal_components(pieces);
    if spec_resolve_output_path(dir, name) is Ok {
        let parts = spec_normal_components(pieces)->Some_0;
        assert(parts.len() > 0);
    }
}

/// Cutting bytes to a UTF-8 boundary keeps the longest prefix that is UTF-8 (or
/// nothing): the result is a prefix of the bytes, empty or valid UTF-8, and no
/// longer prefix is valid UTF-8.
pub proof fn law_cut_keeps_the_longest_utf8_prefix(b: Seq<u8>)
    ensures
        spec_trim_to_utf8(b).len() <= b.len(),
        spec_trim_to_utf8(b) == b.take(spec_trim_to_utf8(b).len() as int),
        spec_trim_to_utf8(b).len() == 0 || vstd::utf8::valid_utf8(spec_trim_to_utf8(b)),
        forall|k: int| spec_trim_to_utf8(b).len() < k <= b.len() ==> !vstd::utf8::valid_utf8(#[trigger] b.take(k)),
    decreases b.len(),
{
    if b.len() == 0 || vstd::utf8::valid_utf8(b) {
        assert(b.take(b.len() as int) =~= b);
    } else {
        let p = b.drop_last();
        law_cut_keeps_the_longest_utf8_prefix(p);
        let r = spec_trim_to_utf8(p);
        assert(r == p.take(r.len() as int));
        assert(p.take(r.len() as int) =~= b.take(r.len() as int));
        assert forall|k: int| r.len() < k <= b.len() implies !vstd::utf8::valid_utf8(#[trigger] b.take(k)) by {
            if k == b.len() {
                assert(b.take(k) =~= b);
            } else {
                assert(p.take(k) =~= b.take(k));
            }
        }
    }
}

proof fn lemma_find_from_first(s: Seq<char>, i: int, c: char)
    requires
        0 <= i,
    ensures
        spec_find_from(s, i, c) matches Some(k) ==> i <= k < s.len() && s[k] == c && forall|j: int| i <= j < k ==> s[j] != c,
        spec_find_from(s, i, c) is None ==> forall|j: int| i <= j < s.len() ==> s[j] != c,
    decreases s.len() - i,
{
    if i < s.len() && s[i] != c {
        lemma_find_from_first(s, i + 1, c);
    }
}

proof fn lemma_find_from_at(s: Seq<char>, i: int, m: int, c: char)
    requires
        0 <= i <= m < s.len(),
        s[m] == c,
        forall|j: int| i <= j < m ==> s[j] != c,
    ensures
        spec_find_from(s, i, c) == Some(m),
    decreases m - i,
{
    if i < m {
        lemma_find_from_at(s, i + 1, m, c);
    }
}

proof fn lemma_find_from_none(s: Seq<char>, i: int, c: char)
    requires
        0 <= i,
        forall|j: int| i <= j < s.len() ==> s[j] != c,
    ensures
        spec_find_from(s, i, c) is None,
    decreases s.len() - i,
{
    if i < s.len() {
        lemma_find_from_none(s, i + 1, c);
    }
}

proof fn lemma_normalize_shift(s: Seq<char>, i: int, j: int)
    requires
        0 <= i <= j,
        i <= s.len(),
    ensures
        spec_normalize_from(s, j) == spec_normalize_from(s.skip(i), j - i),
    decreases s.len() - j,
{
    let t = s.skip(i);
    if j < s.len() {
        lemma_find_from_first(s, j, '\n');
        match spec_find_from(s, j, '\n') {
            Some(k) => {
                assert forall|m: int| j - i <= m < k - i implies t[m] != '\n' by {
                    assert(t[m] == s[m + i]);
                }
                assert(t[k - i] == s[k]);
                lemma_find_from_at(t, j - i, k - i, '\n');
                assert(t.subrange(j - i, k - i) =~= s.subrange(j, k));
                lemma_normalize_shift(s, i, k + 1);
            },
            None => {
                assert forall|m: int| j - i <= m < t.len() implies t[m] != '\n' by {
                    assert(t[m] == s[m + i]);
                }
                lemma_find_from_none(t, j - i, '\n');
                assert(t.subrange(j - i, t.len() as int) =~= s.subrange(j, s.len() as int));
            },
        }
    }
}

proof fn lemma_normalize_line_idempotent(l: Seq<char>)
    ensures
        spec_normalize_line(spec_normalize_line(l)) == spec_normalize_line(l),
        !l.contains('\n') ==> !spec_normalize_line(l).contains('\n'),
        spec_normalize_line(l).len() >= l.len(),
{
    let n = spec_normalize_line(l);
    if n != l {
        assert(n == seq![' '] + l);
        assert(n.skip(2)[0] == l[1]);
        assert(l[1] == ' ');
        assert(!is_ascii_digit(n.skip(2)[0]));
        assert(leading_digits(n.skip(2)) == 0);
        assert(!spec_is_ordered_list_marker(n.skip(2)));
        if l.contains('\n') == false && n.contains('\n') {
            let j = choose|j: int| 0 <= j < n.len() && n[j] == '\n';
            assert(j > 0);
            assert(l[j - 1] == '\n');
        }
    }
}

proof fn lemma_normalize_idempotent(s: Seq<char>)
    ensures
        spec_normalize_markdown(spec_normalize_markdown(s)) == spec_normalize_markdown(s),
    decreases s.len(),
{
    let t = spec_normalize_markdown(s);
    if s.len() > 0 {
        lemma_find_from_first(s, 0, '\n');
        match spec_find_from(s, 0, '\n') {
            Some(j) => {
                let line = s.subrange(0, j);
                let ln = spec_normalize_line(line);
                let rest = s.skip(j + 1);
                lemma_normalize_shift(s, j + 1, j + 1);
                assert(rest.len() < s.len());
                lemma_normalize_idempotent(rest);
                let nr = spec_normalize_markdown(rest);
                assert(spec_normalize_from(rest, 0) == nr);
                assert(t == ln + seq!['\n'] + nr);
                assert(!line.contains('\n')) by {
                    if line.contains('\n') {
                        let m = choose|m: int| 0 <= m < line.len() && line[m] == '\n';
                        assert(s[m] == '\n');
                    }
                }
                lemma_normalize_line_idempotent(line);
                assert forall|m: int| 0 <= m < ln.len() implies t[m] != '\n' by {
                    assert(t[m] == ln[m]);
                    if ln[m] == '\n' {
                        assert(ln.contains('\n'));
                    }
                }
                assert(t[ln.len() as int] == '\n');
                lemma_find_from_at(t, 0, ln.len() as int, '\n');
                assert(t.subrange(0, ln.len() as int) =~= ln);
                lemma_normalize_shift(t, ln.len() + 1int, ln.len() + 1int);
                assert(t.skip(ln.len() + 1int) =~= nr);
                assert(spec_normalize_from(t, ln.len() + 1int) == spec_normalize_markdown(nr));
            },
            None => {
                assert(s.subrange(0, s.len() as int) =~= s);
                assert(t == spec_normalize_line(s));
                assert(!s.contains('\n')) by {
                    if s.contains('\n') {
                        let m = choose|m: int| 0 <= m < s.len() && s[m] == '\n';
                    }
                }
                lemma_normalize_line_idempotent(s);
                assert forall|m: int| 0 <= m < t.len() implies t[m] != '\n' by {
                    if t[m] == '\n' {
                        assert(t.contains('\n'));
                    }
                }
                lemma_find_from_none(t, 0, '\n');
                assert(t.subrange(0, t.len() as int) =~= t);
            },
        }
    }
}

/// Normalizing markdown for lenient HWPX conversion a second time changes nothing.
pub proof fn law_markdown_normalization_is_idempotent(markdown: Seq<char>)
    ensures
        spec_normalize_markdown(spec_normalize_markdown(markdown)) == spec_normalize_markdown(markdown),
{
    lemma_normalize_idempotent(markdown);
}

/// A feature that only an HWPX analysis reports.
pub open spec fn is_hwpx_feature(f: Seq<char>) -> bool {
    f == "HWPX ordered list in strict mode"@ || f == "HWPX image"@ || f == "HWPX unsupported rich block"@
}

/// Every issue is of a feature that only an HWPX analysis reports.
pub open spec fn hwpx_only(s: Seq<IssueV>) -> bool {
    forall|i: int| 0 <= i < s.len() ==> is_hwpx_feature(#[trigger] s[i].feature)
}

proof fn lemma_hwpx_only_concat(a: Seq<IssueV>, b: Seq<IssueV>)
    requires
        hwpx_only(a),
        hwpx_only(b),
    ensures
        hwpx_only(a + b),
{
    assert forall|i: int| 0 <= i < (a + b).len() implies is_hwpx_feature(#[trigger] (a + b)[i].feature) by {
        if i < a.len() {
            assert((a + b)[i] == a[i]);
        } else {
            assert((a + b)[i] == b[i - a.len()]);
        }
    }
}

proof fn lemma_inline_issues_hwpx(s: Seq<InlineV>)
    ensures
        hwpx_only(spec_inline_issues(s)),
    decreases s,
{
    if s.len() > 0 {
        lemma_inline_issues_hwpx(s.drop_last());
        lemma_one_inline_issues_hwpx(s.last());
        lemma_hwpx_only_concat(spec_inline_issues(s.drop_last()), spec_one_inline_issues(s.last()));
    }
}

proof fn lemma_one_inline_issues_hwpx(i: InlineV)
    ensures
        hwpx_only(spec_one_inline_issues(i)),
    decreases i,
{
    match i {
        InlineV::Emphasis(c) => lemma_inline_issues_hwpx(c),
        InlineV::Strong(c) => lemma_inline_issues_hwpx(c),
        InlineV::Link { text, .. } => lemma_inline_issues_hwpx(text),
        InlineV::Image(_) => {
            reveal_strlit("HWPX image");
        },
        _ => {},
    }
}

proof fn lemma_cells_issues_hwpx(cells: Seq<Seq<InlineV>>)
    ensures
        hwpx_only(spec_cells_issues(cells)),
    decreases cells.len(),
{
    if cells.len() > 0 {
        lemma_cells_issues_hwpx(cells.drop_last());
        lemma_inline_issues_hwpx(cells.last());
        lemma_hwpx_only_concat(spec_cells_issues(cells.drop_last()), spec_inline_issues(cells.last()));
    }
}

proof fn lemma_rows_issues_hwpx(rows: Seq<Seq<Seq<InlineV>>>)
    ensures
        hwpx_only(spec_rows_issues(rows)),
    decreases rows.len(),
{
    if rows.len() > 0 {
        lemma_rows_issues_hwpx(rows.drop_last());
        lemma_cells_issues_hwpx(rows.last());
        lemma_hwpx_only_concat(spec_rows_issues(rows.drop_last()), spec_cells_issues(rows.last()));
    }
}

proof fn lemma_block_issues_hwpx(s: Seq<BlockV>)
    ensures
        hwpx_only(spec_block_issues(s)),
    decreases s,
{
    if s.len() > 0 {
        lemma_block_issues_hwpx(s.drop_last());
        lemma_one_block_issues_hwpx(s.last());
        lemma_hwpx_only_concat(spec_block_issues(s.drop_last()), spec_one_block_issues(s.last()));
    }
}

proof fn lemma_items_issues_hwpx(items: Seq<Seq<BlockV>>)
    ensures
        hwpx_only(spec_items_issues(items)),
    decreases items,
{
    if items.len() > 0 {
        lemma_items_issues_hwpx(items.drop_last());
        lemma_block_issues_hwpx(items.last());
        lemma_hwpx_only_concat(spec_items_issues(items.drop_last()), spec_block_issues(items.last()));
    }
}

proof fn lemma_one_block_issues_hwpx(b: BlockV)
    ensures
        hwpx_only(spec_one_block_issues(b)),
    decreases b,
{
    reveal_strlit("HWPX unsupported rich block");
    reveal_strlit("HWPX ordered list in strict mode");
    match b {
        BlockV::Paragraph(c) => lemma_inline_issues_hwpx(c),
        BlockV::Heading { content, .. } => lemma_inline_issues_hwpx(content),
        BlockV::BlockQuote(inner) => lemma_block_issues_hwpx(inner),
        BlockV::List(l) => {
            lemma_items_issues_hwpx(l.items);
            let head: Seq<IssueV> = if l.ordered { seq![hwpx_ordered_list_issue()] } else { seq![] };
            lemma_hwpx_only_concat(head, spec_items_issues(l.items));
        },
        BlockV::Table(t) => {
            lemma_cells_issues_hwpx(t.headers);
            lemma_rows_issues_hwpx(t.rows);
            lemma_hwpx_only_concat(spec_cells_issues(t.headers), spec_rows_issues(t.rows));
        },
        _ => {},
    }
}

/// Removing repeats from a sequence extended by more issues keeps what removing
/// them from the sequence gives, as a prefix; what follows comes from the
/// extension.
proof fn lemma_dedup_extend(s: Seq<IssueV>, t: Seq<IssueV>)
    ensures
        spec_dedup(s).len() <= spec_dedup(s + t).len(),
        spec_dedup(s + t).take(spec_dedup(s).len() as int) == spec_dedup(s),
        forall|i: int| spec_dedup(s).len() <= i < spec_dedup(s + t).len() ==> t.contains(#[trigger] spec_dedup(s + t)[i]),
    decreases t.len(),
{
    if t.len() == 0 {
        assert(s + t =~= s);
        assert(spec_dedup(s).take(spec_dedup(s).len() as int) =~= spec_dedup(s));
    } else {
        let t0 = t.drop_last();
        lemma_dedup_extend(s, t0);
        assert((s + t).drop_last() =~= s + t0);
        assert((s + t).last() == t.last());
        let d0 = spec_dedup(s + t0);
        let n = spec_dedup(s).len() as int;
        if !d0.contains(t.last()) {
            assert(d0.push(t.last()).take(n) =~= d0.take(n));
        }
        assert forall|i: int| n <= i < spec_dedup(s + t).len() implies t.contains(#[trigger] spec_dedup(s + t)[i]) by {
            if i < d0.len() {
                assert(t0.contains(d0[i]));
                let k = choose|k: int| 0 <= k < t0.len() && t0[k] == d0[i];
                assert(t[k] == t0[k]);
            } else {
                assert(t[t.len() - 1] == t.last());
            }
        }
    }
}

/// What an HWPX analysis reports begins with all that a DOCX analysis of the same
/// markdown reports, in the same order; every further issue is of a feature that
/// only HWPX reports (ordered lists in strict mode, images, unsupported rich
/// blocks).
pub proof fn law_hwpx_analysis_extends_docx(markdown: Seq<char>)
    ensures
        ({
            let d = spec_analyze(markdown, ConversionTarget::Docx).issues;
            let h = spec_analyze(markdown, ConversionTarget::Hwpx).issues;
            &&& d.len() <= h.len()
            &&& h.take(d.len() as int) == d
            &&& forall|i: int| d.len() <= i < h.len() ==> is_hwpx_feature(#[trigger] h[i].feature)
        }),
{
    let p = spec_parser_issues(spec_markdown_events(markdown));
    let extra = match spec_parse_markdown(false, markdown) {
        Ok(blocks) => spec_block_issues(blocks),
        Err(_) => seq![],
    };
    match spec_parse_markdown(false, markdown) {
        Ok(blocks) => lemma_block_issues_hwpx(blocks),
        Err(_) => {},
    }
    assert(p + seq![] =~= p);
    lemma_dedup_extend(p, extra);
    let d = spec_dedup(p);
    let h = spec_dedup(p + extra);
    assert forall|i: int| d.len() <= i < h.len() implies is_hwpx_feature(#[trigger] h[i].feature) by {
        assert(extra.contains(h[i]));
        let k = choose|k: int| 0 <= k < extra.len() && extra[k] == h[i];
        assert(is_hwpx_feature(extra[k].feature));
    }
}

/// Two outcomes of a conversion agree: both packages the same, or both errors of
/// one kind, the same error where it is not a zip error.
pub open spec fn same_outcome(r1: Result<Vec<u8>, CoreRsError>, r2: Result<Vec<u8>, CoreRsError>) -> bool {
    match (r1, r2) {
        (Ok(b1), Ok(b2)) => b1@ == b2@,
        (Err(e1), Err(e2)) => e1@.kind == e2@.kind && (e1@.kind != ErrorKind::Zip ==> e1@ == e2@),
        _ => false,
    }
}

/// Converting the same markdown to DOCX twice, with the same options, gives the
/// same outcome.
pub proof fn law_generate_docx_deterministic(
    markdown: Seq<char>,
    options: DocxOptions,
    r1: Result<Vec<u8>, CoreRsError>,
    r2: Result<Vec<u8>, CoreRsError>,
)
    requires
        generate_docx_holds(r1, markdown, options),
        generate_docx_holds(r2, markdown, options),
    ensures
        same_outcome(r1, r2),
{
}

/// Converting the same markdown to HWPX twice, with the same options and parts,
/// gives the same outcome.
pub proof fn law_generate_hwpx_deterministic(
    markdown: Seq<char>,
    options: HwpxOptions,
    parts: HwpxPackageParts,
    r1: Result<Vec<u8>, CoreRsError>,
    r2: Result<Vec<u8>, CoreRsError>,
)
    requires
        generate_hwpx_holds(r1, markdown, options, parts),
        generate_hwpx_holds(r2, markdown, options, parts),
    ensures
        same_outcome(r1, r2),
{
}

/// What a conversion with a report gives agrees with the conversion alone: its
/// package with the report for the mode, or an error of the same kind (the same
/// error where it is not a zip error) with that report and the error recorded in
/// it.
pub open spec fn report_agrees(plain: Result<Vec<u8>, CoreRsError>, with: Result<GenerationResult, GenerationFailure>, report: ReportV) -> bool {
    match plain {
        Ok(b) => with matches Ok(g) && g.bytes@ == b@ && g.report@ == report,
        Err(e) => with matches Err(f) && f.error@.kind == e@.kind && (e@.kind != ErrorKind::Zip ==> f.error@ == e@)
            && f.report@ == spec_with_error_issue(report, f.error@),
    }
}

/// Converting markdown to DOCX with a report agrees with converting it alone.
pub proof fn law_docx_report_agrees(
    markdown: Seq<char>,
    options: DocxOptions,
    plain: Result<Vec<u8>, CoreRsError>,
    with: Result<GenerationResult, GenerationFailure>,
)
    requires
        generate_docx_holds(plain, markdown, options),
        docx_report_holds(with, markdown, options),
    ensures
        report_agrees(
            plain,
            with,
            spec_report_for_mode(spec_analyze(markdown, ConversionTarget::Docx), ConversionTarget::Docx, options.strict_mode),
        ),
{
    let outcome = choose|outcome: Result<Vec<u8>, CoreRsError>|
        #![trigger generate_docx_holds(outcome, markdown, options)]
        generate_docx_holds(outcome, markdown, options) && with_report_holds(
            with,
            outcome,
            spec_report_for_mode(spec_analyze(markdown, ConversionTarget::Docx), ConversionTarget::Docx, options.strict_mode),
        );
    law_generate_docx_deterministic(markdown, options, plain, outcome);
}

/// Converting markdown to HWPX with a report agrees with converting it alone.
pub proof fn law_hwpx_report_agrees(
    markdown: Seq<char>,
    options: HwpxOptions,
    parts: HwpxPackageParts,
    plain: Result<Vec<u8>, CoreRsError>,
    with: Result<GenerationResult, GenerationFailure>,
)
    requires
        generate_hwpx_holds(plain, markdown, options, parts),
        hwpx_report_holds(with, markdown, options, parts),
    ensures
        report_agrees(
            plain,
            with,
            spec_report_for_mode(spec_analyze(markdown, ConversionTarget::Hwpx), ConversionTarget::Hwpx, options.strict_mode),
        ),
{
    let outcome = choose|outcome: Result<Vec<u8>, CoreRsError>|
        #![trigger generate_hwpx_holds(outcome, markdown, options, parts)]
        generate_hwpx_holds(outcome, markdown, options, parts) && with_report_holds(
            with,
            outcome,
            spec_report_for_mode(spec_analyze(markdown, ConversionTarget::Hwpx), ConversionTarget::Hwpx, options.strict_mode),
        );
    law_generate_hwpx_deterministic(markdown, options, parts, plain, outcome);
}

/// Loading an HWPX package whose archive reads back the files that HWPX
/// generation packs gives back the content, header and section that were packed,
/// when each of the three is at most 8 MiB of UTF-8 and together at most 32 MiB.
/// (Generation states that its bytes read back so.)
pub proof fn law_generated_package_loads(
    parts: HwpxPackageParts,
    header: Seq<char>,
    section: Seq<char>,
    preview: Seq<char>,
    settings: Seq<char>,
    image: Seq<u8>,
    bytes: Seq<u8>,
)
    requires
        reads_back(bytes, spec_hwpx_entries(parts, header, section, preview, settings, image)),
        encode_utf8(header).len() <= MAX_ENTRY_BYTES,
        encode_utf8(section).len() <= MAX_ENTRY_BYTES,
        encode_utf8(parts.content_hpf@).len() <= MAX_ENTRY_BYTES,
        encode_utf8(header).len() + encode_utf8(section).len() + encode_utf8(parts.content_hpf@).len()
            <= MAX_TOTAL_ARCHIVE_BYTES,
    ensures
        spec_load(bytes) == Ok::<LoadedV, LoadErrorV>(
            LoadedV { content_hpf: parts.content_hpf@, header_xml: header, section_xml: section },
        ),
{
    broadcast use vstd::utf8::encode_utf8_valid_utf8, vstd::utf8::encode_utf8_decode_utf8;
    reveal_strlit("mimetype");
    reveal_strlit("version.xml");
    reveal_strlit("Contents/header.xml");
    reveal_strlit("Contents/section0.xml");
    reveal_strlit("Preview/PrvText.txt");
    reveal_strlit("settings.xml");
    reveal_strlit("Preview/PrvImage.png");
    reveal_strlit("META-INF/container.rdf");
    reveal_strlit("Contents/content.hpf");
    reveal_strlit("META-INF/container.xml");
    reveal_strlit("META-INF/manifest.xml");
    reveal_strlit("Contents/section");
    let es = spec_hwpx_entries(parts, header, section, preview, settings, image);
    let limit = (MAX_ENTRY_BYTES + 1) as nat;
    let h = encode_utf8(header);
    let sc = encode_utf8(section);
    let c = encode_utf8(parts.content_hpf@);
    assert(spec_zip_entry_count(bytes) == Some(11nat));
    assert forall|i: int| 0 <= i < 11 implies #[trigger] spec_zip_entry_name(bytes, i as nat) == Some(es[i].0) by {}
    assert(spec_zip_entry_prefix(bytes, 2, limit) == Some(bytes_prefix(es[2].1, limit)));
    assert(spec_zip_entry_prefix(bytes, 3, limit) == Some(bytes_prefix(es[3].1, limit)));
    assert(spec_zip_entry_prefix(bytes, 8, limit) == Some(bytes_prefix(es[8].1, limit)));
    assert(bytes_prefix(h, limit) == h);
    assert(bytes_prefix(sc, limit) == sc);
    assert(bytes_prefix(c, limit) == c);
    let n = Seq::new(11, |i: int| es[i].0);
    assert forall|i: int, j: int| 0 <= i < j < 11 implies n[i] != n[j] by {
        if n[i] == n[j] {
            assert(n[i].len() == n[j].len());
            assert(n[i][0] == n[j][0]);
            assert(n[i][n[i].len() - 1] == n[j][n[j].len() - 1]);
            assert(n[i][9] == n[j][9]);
        }
    }
    let p = "Contents/section"@;
    assert(!spec_starts_with(n[2], p)) by { assert(n[2][9] != p[9]); }
    assert(spec_starts_with(n[3], p)) by { assert(n[3].subrange(0, 16) =~= p); }
    assert(!spec_starts_with(n[4], p)) by { assert(n[4][0] != p[0]); }
    assert(!spec_starts_with(n[6], p)) by { assert(n[6][0] != p[0]); }
    assert(!spec_starts_with(n[7], p)) by { assert(n[7][0] != p[0]); }
    assert(!spec_starts_with(n[8], p)) by { assert(n[8][9] != p[9]); }
    assert(!spec_starts_with(n[9], p)) by { assert(n[9][0] != p[0]); }
    assert(!spec_starts_with(n[10], p)) by { assert(n[10][0] != p[0]); }
    let empty: Seq<Seq<char>> = seq![];
    let st0 = ScanV { seen: empty, extra: empty, total: 0, content: None, header: None, section: None };
    assert(spec_scan(bytes, 0) == Ok::<ScanV, LoadErrorV>(st0));
    let st1 = ScanV { seen: n.take(1), ..st0 };
    assert(!st0.seen.contains(n[0]));
    assert(n.take(1) =~= st0.seen.push(n[0]));
    assert(spec_scan(bytes, 1) == Ok::<ScanV, LoadErrorV>(st1));
    let st2 = ScanV { seen: n.take(2), ..st1 };
    assert(!st1.seen.contains(n[1]));
    assert(n.take(2) =~= st1.seen.push(n[1]));
    assert(spec_scan(bytes, 2) == Ok::<ScanV, LoadErrorV>(st2));
    let st3 = ScanV { seen: n.take(3), total: h.len(), header: Some(header), ..st2 };
    assert(!st2.seen.contains(n[2]));
    assert(n.take(3) =~= st2.seen.push(n[2]));
    assert(spec_scan(bytes, 3) == Ok::<ScanV, LoadErrorV>(st3));
    let st4 = ScanV { seen: n.take(4), total: h.len() + sc.len(), section: Some(section), ..st3 };
    assert(!st3.seen.contains(n[3]));
    assert(n.take(4) =~= st3.seen.push(n[3]));
    assert(spec_scan(bytes, 4) == Ok::<ScanV, LoadErrorV>(st4));
    let st5 = ScanV { seen: n.take(5), ..st4 };
    assert(!st4.seen.contains(n[4]));
    assert(n.take(5) =~= st4.seen.push(n[4]));
    assert(spec_scan(bytes, 5) == Ok::<ScanV, LoadErrorV>(st5));
    let st6 = ScanV { seen: n.take(6), ..st5 };
    assert(!st5.seen.contains(n[5]));
    assert(n.take(6) =~= st5.seen.push(n[5]));
    assert(spec_scan(bytes, 6) == Ok::<ScanV, LoadErrorV>(st6));
    let st7 = ScanV { seen: n.take(7), ..st6 };
    assert(!st6.seen.contains(n[6]));
    assert(n.take(7) =~= st6.seen.push(n[6]));
    assert(spec_scan(bytes, 7) == Ok::<ScanV, LoadErrorV>(st7));
    let st8 = ScanV { seen: n.take(8), ..st7 };
    assert(!st7.seen.contains(n[7]));
    assert(n.take(8) =~= st7.seen.push(n[7]));
    assert(spec_scan(bytes, 8) == Ok::<ScanV, LoadErrorV>(st8));
    let st9 = ScanV { seen: n.take(9), total: h.len() + sc.len() + c.len(), content: Some(parts.content_hpf@), ..st8 };
    assert(!st8.seen.contains(n[8]));
    assert(n.take(9) =~= st8.seen.push(n[8]));
    assert(spec_scan(bytes, 9) == Ok::<ScanV, LoadErrorV>(st9));
    let st10 = ScanV { seen: n.take(10), ..st9 };
    assert(!st9.seen.contains(n[9]));
    assert(n.take(10) =~= st9.seen.push(n[9]));
    assert(spec_scan(bytes, 10) == Ok::<ScanV, LoadErrorV>(st10));
    let st11 = ScanV { seen: n.take(11), ..st10 };
    assert(!st10.seen.contains(n[10]));
    assert(n.take(11) =~= st10.seen.push(n[10]));
    assert(spec_scan(bytes, 11) == Ok::<ScanV, LoadErrorV>(st11));
}

/// The side that a table alignment names, as DOCX writes it.
pub open spec fn side_name(a: TableAlignment) -> Seq<char> {
    match a {
        TableAlignment::Left => "left"@,
        TableAlignment::Center => "center"@,
        TableAlignment::Right => "right"@,
        TableAlignment::Unaligned => seq![],
    }
}

/// A DOCX table cell in a column aligned to a side carries a justification of
/// that same side (`<w:jc w:val="right"/>` for a right-aligned column); an
/// unaligned column carries none. Distinct alignments give distinct properties.
pub proof fn law_cell_alignment_names_its_side(a: TableAlignment, b: TableAlignment)
    ensures
        a == TableAlignment::Unaligned ==> align_properties(a).len() == 0,
        a != TableAlignment::Unaligned ==> align_properties(a) == "<w:jc w:val=\""@ + side_name(a) + "\"/>"@
            && align_properties(a).len() > 0,
        a != b ==> align_properties(a) != align_properties(b),
{
    reveal_strlit("<w:jc w:val=\"left\"/>");
    reveal_strlit("<w:jc w:val=\"center\"/>");
    reveal_strlit("<w:jc w:val=\"right\"/>");
    reveal_strlit("<w:jc w:val=\"");
    reveal_strlit("\"/>");
    reveal_strlit("left");
    reveal_strlit("center");
    reveal_strlit("right");
    assert(align_properties(TableAlignment::Left) =~= "<w:jc w:val=\""@ + "left"@ + "\"/>"@);
    assert(align_properties(TableAlignment::Center) =~= "<w:jc w:val=\""@ + "center"@ + "\"/>"@);
    assert(align_properties(TableAlignment::Right) =~= "<w:jc w:val=\""@ + "right"@ + "\"/>"@);
    if a != b && align_properties(a) == align_properties(b) {
        let x = align_properties(a);
        assert(x.len() == align_properties(b).len());
        if x.len() > 0 {
            assert(x[12] == align_properties(b)[12]);
        }
    }
}

/// The HWPX paragraph style of a heading of level `l` (1 to 6) is paragraph
/// property and style `l + 1`; levels 1 to 4 use their own heading character
/// property (`9 + l`: 10 for level 1, 11 for level 2, ...), levels 5 and 6 the
/// bold one; any deeper level is styled as level 6. Distinct levels from 1 to 6
/// get distinct styles.
pub proof fn law_heading_style_follows_level(l: u8, m: u8)
    ensures
        1 <= l <= 6 ==> spec_heading_style(l).para_pr == l + 1 && spec_heading_style(l).style == l + 1,
        1 <= l <= 4 ==> spec_heading_style(l).default_char_pr == 9 + l,
        l == 5 || l == 6 ==> spec_heading_style(l).default_char_pr == BOLD_CHAR_PR,
        l > 6 ==> spec_heading_style(l) == spec_heading_style(6),
        1 <= l <= 6 && 1 <= m <= 6 && l != m ==> spec_heading_style(l).style != spec_heading_style(m).style,
        spec_heading_style(l).list_semantic == ListSemantic::NotListed,
{
}

/// Opening a list whose event carries a start number opens an ordered list that
/// starts at that number; one without opens an unordered list (starting at 1).
/// The list opens, empty, inside what was open, and nothing else changes.
pub proof fn law_list_start_follows_event(strict: bool, st: StateV, start: Option<u64>)
    ensures
        spec_handle_start(strict, st, MdTagV::List(start)) matches Ok(next) && {
            &&& next.containers.len() == st.containers.len() + 1
            &&& next.containers.drop_last() == st.containers
            &&& next.containers.last() matches ContainerV::List(l) && l.items.len() == 0
                && l.ordered == (start is Some)
                && l.start_index == (match start { Some(n) => n, None => 1u64 })
            &&& next.inlines == st.inlines
        },
{
    let next = spec_handle_start(strict, st, MdTagV::List(start))->Ok_0;
    assert(next.containers.drop_last() =~= st.containers);
}

/// How many events are task-list markers.
pub open spec fn count_task_markers(evs: Seq<MdEventV>) -> nat
    decreases evs.len(),
{
    if evs.len() == 0 {
        0
    } else {
        count_task_markers(evs.drop_last()) + if evs.last() is TaskListMarker { 1nat } else { 0nat }
    }
}

/// How many events are raw HTML, block or inline.
pub open spec fn count_html(evs: Seq<MdEventV>) -> nat
    decreases evs.len(),
{
    if evs.len() == 0 {
        0
    } else {
        count_html(evs.drop_last()) + if evs.last() is Html || evs.last() is InlineHtml { 1nat } else { 0nat }
    }
}

/// How many events are math, inline or display.
pub open spec fn count_math(evs: Seq<MdEventV>) -> nat
    decreases evs.len(),
{
    if evs.len() == 0 {
        0
    } else {
        count_math(evs.drop_last()) + if evs.last() is InlineMath || evs.last() is DisplayMath { 1nat } else { 0nat }
    }
}

/// How many events are footnotes: definitions opened, or references.
pub open spec fn count_footnotes(evs: Seq<MdEventV>) -> nat
    decreases evs.len(),
{
    if evs.len() == 0 {
        0
    } else {
        count_footnotes(evs.drop_last()) + if evs.last() is FootnoteReference
            || evs.last() matches MdEventV::Start(MdTagV::FootnoteDefinition(_)) { 1nat } else { 0nat }
    }
}

/// How many issues are of a feature.
pub open spec fn count_feature(issues: Seq<IssueV>, feature: Seq<char>) -> nat
    decreases issues.len(),
{
    if issues.len() == 0 {
        0
    } else {
        count_feature(issues.drop_last(), feature) + if issues.last().feature == feature { 1nat } else { 0nat }
    }
}

/// The task-list warning: a degraded warning under the feature "task list".
pub open spec fn is_task_list_warning(i: IssueV) -> bool {
    i == IssueV {
        feature: "task list"@,
        message: "task lists fall back to visible markers in compat mode"@,
        severity: IssueSeverity::Warning,
        degraded: true,
    }
}

proof fn lemma_count_feature_push(issues: Seq<IssueV>, i: IssueV, feature: Seq<char>)
    ensures
        count_feature(issues.push(i), feature) == count_feature(issues, feature) + if i.feature == feature { 1nat } else { 0nat },
{
    assert(issues.push(i).drop_last() =~= issues);
}

/// The issues that the tokenizer's events show hold one "task list" warning per
/// task-list marker, one "HTML" warning per raw HTML event, one "math" warning
/// per math event and one "footnote" warning per footnote definition or
/// reference; every "task list" issue is the degraded task-list warning.
pub proof fn law_parser_issues_count_events(evs: Seq<MdEventV>)
    ensures
        count_feature(spec_parser_issues(evs), "task list"@) == count_task_markers(evs),
        count_feature(spec_parser_issues(evs), "HTML"@) == count_html(evs),
        count_feature(spec_parser_issues(evs), "math"@) == count_math(evs),
        count_feature(spec_parser_issues(evs), "footnote"@) == count_footnotes(evs),
        forall|k: int| 0 <= k < spec_parser_issues(evs).len() && #[trigger] spec_parser_issues(evs)[k].feature == "task list"@
            ==> is_task_list_warning(spec_parser_issues(evs)[k]),
    decreases evs.len(),
{
    reveal_strlit("task list");
    reveal_strlit("HTML");
    reveal_strlit("math");
    reveal_strlit("footnote");
    reveal_strlit("deep nested list");
    reveal_strlit("unsupported image mime type");
    reveal_strlit("non-data image");
    if evs.len() > 0 {
        let prev = evs.drop_last();
        law_parser_issues_count_events(prev);
        let sc = crate::diagnostics::spec_scan(prev);
        let next = crate::diagnostics::spec_scan(evs);
        let f1 = "task list"@;
        let f2 = "HTML"@;
        let f3 = "math"@;
        let f4 = "footnote"@;
        assert(f2[0] != f3[0]);
        assert(evs.drop_last() == prev);
        let ev = evs.last();
        assert(next == crate::diagnostics::spec_scan_step(sc, ev));
        if next.issues =~= sc.issues {
            assert(!(ev is TaskListMarker) && !(ev is Html) && !(ev is InlineHtml) && !(ev is InlineMath)
                && !(ev is DisplayMath) && !(ev is FootnoteReference)
                && !(ev matches MdEventV::Start(MdTagV::FootnoteDefinition(_))));
        } else {
            let i = next.issues.last();
            assert(next.issues =~= sc.issues.push(i));
            lemma_count_feature_push(sc.issues, i, f1);
            lemma_count_feature_push(sc.issues, i, f2);
            lemma_count_feature_push(sc.issues, i, f3);
            lemma_count_feature_push(sc.issues, i, f4);
            let dl = "deep nested list"@;
            let um = "unsupported image mime type"@;
            let nd = "non-data image"@;
            assert(i.feature == f1 <==> ev is TaskListMarker) by {
                assert(dl.len() != f1.len() && um.len() != f1.len() && nd.len() != f1.len() && f2.len() != f1.len()
                    && f3.len() != f1.len() && f4.len() != f1.len());
            }
            assert(i.feature == f2 <==> (ev is Html || ev is InlineHtml)) by {
                assert(dl.len() != f2.len() && um.len() != f2.len() && nd.len() != f2.len() && f1.len() != f2.len()
                    && f4.len() != f2.len());
            }
            assert(i.feature == f3 <==> (ev is InlineMath || ev is DisplayMath)) by {
                assert(dl.len() != f3.len() && um.len() != f3.len() && nd.len() != f3.len() && f1.len() != f3.len()
                    && f4.len() != f3.len());
            }
            assert(i.feature == f4 <==> (ev is FootnoteReference || ev matches MdEventV::Start(MdTagV::FootnoteDefinition(_)))) by {
                assert(dl.len() != f4.len() && um.len() != f4.len() && nd.len() != f4.len() && f1.len() != f4.len()
                    && f2.len() != f4.len() && f3.len() != f4.len());
            }
            assert forall|k: int| 0 <= k < next.issues.len() && #[trigger] next.issues[k].feature == f1
                implies is_task_list_warning(next.issues[k]) by {
                if k < sc.issues.len() {
                    assert(next.issues[k] == sc.issues[k]);
                } else {
                    assert(next.issues[k] == i);
                }
            }
        }
    }
}

/// A paragraph-style `style` of the nodes before `k` that the registry reads:
/// its id, and the paragraph property it references.
pub open spec fn para_style_at(v: Seq<XmlNodeV>, ds: Seq<nat>, i: int, style_id: u32, para: u32) -> bool {
    &&& is_named(v, ds[i], "style"@)
    &&& spec_attribute(v, ds[i], "type"@) == Some("PARA"@)
    &&& spec_required_u32(v, ds[i], "id"@, "hh:style"@) == Ok::<u32, ErrorV>(style_id)
    &&& spec_required_u32(v, ds[i], "paraPrIDRef"@, "hh:style"@) == Ok::<u32, ErrorV>(para)
}

/// Every heading level that the registry records comes from a paragraph style
/// whose paragraph property is an outline heading of level `l`, and is `l + 1`
/// (255 for 255): an outline level of 0 is a heading of level 1, of 1 a heading
/// of level 2.
pub proof fn law_style_heading_levels(v: Seq<XmlNodeV>, ds: Seq<nat>, k: nat, by_id: Map<u32, ParaDefinition>)
    requires
        k <= ds.len(),
        spec_headings_upto(v, ds, k, by_id) is Ok,
    ensures
        forall|style_id: u32| #[trigger] spec_headings_upto(v, ds, k, by_id)->Ok_0.contains_key(style_id) ==> exists|i: int, para: u32|
            0 <= i < k && para_style_at(v, ds, i, style_id, para) && by_id.contains_key(para)
                && by_id[para].heading == HeadingType::Outline
                && spec_headings_upto(v, ds, k, by_id)->Ok_0[style_id] == (if by_id[para].heading_level == 255 {
                    255u8
                } else {
                    (by_id[para].heading_level + 1) as u8
                }),
    decreases k,
{
    if k > 0 {
        law_style_heading_levels(v, ds, (k - 1) as nat, by_id);
        let m = spec_headings_upto(v, ds, (k - 1) as nat, by_id)->Ok_0;
        let m2 = spec_headings_upto(v, ds, k, by_id)->Ok_0;
        assert forall|style_id: u32| #[trigger] m2.contains_key(style_id) implies exists|i: int, para: u32|
            0 <= i < k && para_style_at(v, ds, i, style_id, para) && by_id.contains_key(para)
                && by_id[para].heading == HeadingType::Outline
                && m2[style_id] == (if by_id[para].heading_level == 255 {
                    255u8
                } else {
                    (by_id[para].heading_level + 1) as u8
                }) by {
            let j = ds[k - 1];
            if is_named(v, j, "style"@) && spec_attribute(v, j, "type"@) == Some("PARA"@) {
                let sid = spec_required_u32(v, j, "id"@, "hh:style"@)->Ok_0;
                let para = spec_required_u32(v, j, "paraPrIDRef"@, "hh:style"@)->Ok_0;
                if by_id[para].heading == HeadingType::Outline && sid == style_id {
                    assert(para_style_at(v, ds, k - 1, style_id, para));
                } else {
                    assert(m.contains_key(style_id));
                    let (i, p) = choose|i: int, p: u32| 0 <= i < k - 1 && para_style_at(v, ds, i, style_id, p)
                        && by_id.contains_key(p) && by_id[p].heading == HeadingType::Outline
                        && m[style_id] == (if by_id[p].heading_level == 255 { 255u8 } else { (by_id[p].heading_level + 1) as u8 });
                    assert(para_style_at(v, ds, i, style_id, p));
                }
            } else {
                assert(m.contains_key(style_id));
                let (i, p) = choose|i: int, p: u32| 0 <= i < k - 1 && para_style_at(v, ds, i, style_id, p)
                    && by_id.contains_key(p) && by_id[p].heading == HeadingType::Outline
                    && m[style_id] == (if by_id[p].heading_level == 255 { 255u8 } else { (by_id[p].heading_level + 1) as u8 });
                assert(para_style_at(v, ds, i, style_id, p));
            }
        }
    }
}

proof fn lemma_occurs_in_extension(x: Seq<char>, y: Seq<char>, n: Seq<char>, i: int)
    requires
        occurs_at(x, n, i),
    ensures
        occurs_at(x + y, n, i),
{
    assert((x + y).subrange(i, i + n.len()) =~= x.subrange(i, i + n.len()));
}

/// In a rendered DOCX table row, the paragraph of every cell in an aligned
/// column is justified to that column's side: the row's markup holds
/// `<w:pPr><w:jc w:val="SIDE"/></w:pPr>` for each such cell.
#[verifier::rlimit(40)]
pub proof fn law_row_cells_justify_to_column_side(
    cells: Seq<Seq<InlineV>>,
    aligns: Seq<TableAlignment>,
    header: bool,
    ctx: CtxV,
    k: int,
)
    requires
        spec_row_cells(cells, aligns, header, ctx) is Ok,
        0 <= k < cells.len(),
        k < aligns.len(),
        aligns[k] != TableAlignment::Unaligned,
    ensures
        spec_contains(
            spec_row_cells(cells, aligns, header, ctx)->Ok_0.0,
            "<w:pPr>"@ + "<w:jc w:val=\""@ + side_name(aligns[k]) + "\"/>"@ + "</w:pPr>"@,
        ),
    decreases cells.len(),
{
    law_cell_alignment_names_its_side(aligns[k], aligns[k]);
    let props = align_properties(aligns[k]);
    let pattern = "<w:pPr>"@ + "<w:jc w:val=\""@ + side_name(aligns[k]) + "\"/>"@ + "</w:pPr>"@;
    assert(pattern =~= "<w:pPr>"@ + props + "</w:pPr>"@);
    let (x, c1) = spec_row_cells(cells.drop_last(), aligns, header, ctx)->Ok_0;
    let out = spec_row_cells(cells, aligns, header, ctx)->Ok_0.0;
    if k < cells.len() - 1 {
        law_row_cells_justify_to_column_side(cells.drop_last(), aligns, header, ctx, k);
        let i = choose|i: int| #[trigger] occurs_at(x, pattern, i);
        let rest = out.subrange(x.len() as int, out.len() as int);
        assert(out =~= x + rest);
        lemma_occurs_in_extension(x, rest, pattern, i);
    } else {
        assert(column_alignment(aligns, cells.len() - 1) == aligns[k]);
        let runs = spec_render_inlines(cells.last(), c1, RunStyle { bold: header, ..spec_plain_style() })->Ok_0.0;
        let shade = if header {
            "<w:shd w:val=\"clear\" w:color=\"auto\" w:fill=\"EFEFEF\"/>"@
        } else {
            seq![]
        };
        let head = x + "<w:tc><w:tcPr>"@ + shade + "</w:tcPr>"@ + "<w:p>"@;
        lemma_paragraph_holds_properties(props, runs);
        assert(out == x + "<w:tc><w:tcPr>"@ + shade + "</w:tcPr>"@ + spec_paragraph(props, runs) + "</w:tc>"@);
        assert(out =~= head + pattern + (runs + "</w:p>"@ + "</w:tc>"@));
        assert(out.subrange(head.len() as int, (head.len() + pattern.len()) as int) =~= pattern);
        assert(occurs_at(out, pattern, head.len() as int));
    }
}

proof fn lemma_paragraph_holds_properties(props: Seq<char>, runs: Seq<char>)
    requires
        props.len() > 0,
    ensures
        spec_paragraph(props, runs) == "<w:p>"@ + ("<w:pPr>"@ + props + "</w:pPr>"@) + (runs + "</w:p>"@),
{
    assert(spec_paragraph(props, runs) =~= "<w:p>"@ + ("<w:pPr>"@ + props + "</w:pPr>"@) + (runs + "</w:p>"@));
}

/// A top-level heading of level `l` (1 to 6) becomes one HWPX paragraph whose
/// paragraph property and style are both `l + 1`, with the heading's character
/// property (`9 + l` for levels 1 to 4) under its runs.
pub proof fn law_heading_block_paragraph_style(
    level: u8,
    content: Seq<InlineV>,
    strict: bool,
    shape: Option<OrderedListShape>,
    id: u64,
)
    requires
        1 <= level <= 6,
        spec_top_block(BlockV::Heading { level, content }, strict, shape, id) is Ok,
    ensures
        ({
            let items = spec_top_block(BlockV::Heading { level, content }, strict, shape, id)->Ok_0;
            &&& items.len() == 1
            &&& items[0] matches SectionItemV::Paragraph(style, runs)
                && style.para_pr == level + 1 && style.style == level + 1
                && (level <= 4 ==> style.default_char_pr == 9 + level)
        }),
{
    law_heading_style_follows_level(level, level);
}

} // verus!
