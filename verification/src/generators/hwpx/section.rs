//! The section part of an HWPX package: its paragraphs and tables as markup, the
//! plain text that the package previews, and the caret position that its settings
//! record.
use vstd::prelude::*;
use crate::error::{CoreRsError, ErrorV};
use crate::generators::hwpx::collect::{collect_section_items, spec_section_items};
use crate::generators::hwpx::items::{
    LineSegProfile, ListSemantic, ParagraphStyle, SectionItem, SectionItemV, TableSpec, TableV,
    items_seq_view, join_strings, ordered_list_shape, render_table_xml, spec_join,
    spec_ordered_list_shape, spec_row_paragraphs, spec_table_xml, strings_view,
};
use crate::generators::hwpx::runs::{RunSpec, RunV, runs_view};
use crate::generators::hwpx::style::ResolvedHwpxStyle;
use crate::models::block::{BlockV, blocks_view};
use crate::models::document::Document;
use crate::utils::text::{append_decimal, chars_of, decimal};
use crate::utils::xml_helper::{escape_text, spec_escape_text};

verus! {

broadcast use crate::models::block::group_view_lemmas;

/// The id of the paragraph at an index: a fixed seed plus the index, in wrapping
/// `u64` arithmetic.
pub open spec fn para_id(index: nat) -> nat {
    (2757524817 + index) % 18446744073709551616
}

fn paragraph_id(index: usize) -> (id: u64)
    ensures
        id == para_id(index as nat),
{
    ((2757524817u128 + index as u128) % 18446744073709551616u128) as u64
}

/// The section properties that open the first paragraph.
pub open spec fn spec_preamble_body() -> Seq<char> {
    "<hp:secPr id=\"\" textDirection=\"HORIZONTAL\" spaceColumns=\"1134\" tabStop=\"8000\" tabStopVal=\"4000\" tabStopUnit=\"HWPUNIT\" outlineShapeIDRef=\"1\" memoShapeIDRef=\"0\" textVerticalWidthHead=\"0\" masterPageCnt=\"0\">"@
        + "<hp:grid lineGrid=\"0\" charGrid=\"0\" wonggojiFormat=\"0\"/>"@
        + "<hp:startNum pageStartsOn=\"BOTH\" page=\"0\" pic=\"0\" tbl=\"0\" equation=\"0\"/>"@
        + "<hp:visibility hideFirstHeader=\"0\" hideFirstFooter=\"0\" hideFirstMasterPage=\"0\" border=\"SHOW_ALL\" fill=\"SHOW_ALL\" hideFirstPageNum=\"0\" hideFirstEmptyLine=\"0\" showLineNumber=\"0\"/>"@
        + "<hp:lineNumberShape restartType=\"0\" countBy=\"0\" distance=\"0\" startNumber=\"0\"/>"@
        + "<hp:pagePr landscape=\"WIDELY\" width=\"59528\" height=\"84186\" gutterType=\"LEFT_ONLY\"><hp:margin header=\"4252\" footer=\"4252\" gutter=\"0\" left=\"8504\" right=\"8504\" top=\"5668\" bottom=\"4252\"/></hp:pagePr>"@
        + "<hp:footNotePr><hp:autoNumFormat type=\"DIGIT\" userChar=\"\" prefixChar=\"\" suffixChar=\")\" supscript=\"0\"/><hp:noteLine length=\"-1\" type=\"SOLID\" width=\"0.12 mm\" color=\"#000000\"/><hp:noteSpacing betweenNotes=\"283\" belowLine=\"567\" aboveLine=\"850\"/><hp:numbering type=\"CONTINUOUS\" newNum=\"1\"/><hp:placement place=\"EACH_COLUMN\" beneathText=\"0\"/></hp:footNotePr>"@
        + "<hp:endNotePr><hp:autoNumFormat type=\"DIGIT\" userChar=\"\" prefixChar=\"\" suffixChar=\")\" supscript=\"0\"/><hp:noteLine length=\"14692344\" type=\"SOLID\" width=\"0.12 mm\" color=\"#000000\"/><hp:noteSpacing betweenNotes=\"0\" belowLine=\"567\" aboveLine=\"850\"/><hp:numbering type=\"CONTINUOUS\" newNum=\"1\"/><hp:placement place=\"END_OF_DOCUMENT\" beneathText=\"0\"/></hp:endNotePr>"@
        + "<hp:pageBorderFill type=\"BOTH\" borderFillIDRef=\"1\" textBorder=\"PAPER\" headerInside=\"0\" footerInside=\"0\" fillArea=\"PAPER\"><hp:offset left=\"1417\" right=\"1417\" top=\"1417\" bottom=\"1417\"/></hp:pageBorderFill>"@
        + "<hp:pageBorderFill type=\"EVEN\" borderFillIDRef=\"1\" textBorder=\"PAPER\" headerInside=\"0\" footerInside=\"0\" fillArea=\"PAPER\"><hp:offset left=\"1417\" right=\"1417\" top=\"1417\" bottom=\"1417\"/></hp:pageBorderFill>"@
        + "<hp:pageBorderFill type=\"ODD\" borderFillIDRef=\"1\" textBorder=\"PAPER\" headerInside=\"0\" footerInside=\"0\" fillArea=\"PAPER\"><hp:offset left=\"1417\" right=\"1417\" top=\"1417\" bottom=\"1417\"/></hp:pageBorderFill>"@
        + "</hp:secPr><hp:ctrl><hp:colPr id=\"\" type=\"NEWSPAPER\" layout=\"LEFT\" colCount=\"1\" sameSz=\"1\" sameGap=\"0\"/></hp:ctrl>"@
}

fn append_preamble_body(s: &mut String)
    ensures
        final(s)@ == old(s)@ + spec_preamble_body(),
{
    let ghost s0 = s@;
    s.append("<hp:secPr id=\"\" textDirection=\"HORIZONTAL\" spaceColumns=\"1134\" tabStop=\"8000\" tabStopVal=\"4000\" tabStopUnit=\"HWPUNIT\" outlineShapeIDRef=\"1\" memoShapeIDRef=\"0\" textVerticalWidthHead=\"0\" masterPageCnt=\"0\">");
    s.append("<hp:grid lineGrid=\"0\" charGrid=\"0\" wonggojiFormat=\"0\"/>");
    s.append("<hp:startNum pageStartsOn=\"BOTH\" page=\"0\" pic=\"0\" tbl=\"0\" equation=\"0\"/>");
    s.append("<hp:visibility hideFirstHeader=\"0\" hideFirstFooter=\"0\" hideFirstMasterPage=\"0\" border=\"SHOW_ALL\" fill=\"SHOW_ALL\" hideFirstPageNum=\"0\" hideFirstEmptyLine=\"0\" showLineNumber=\"0\"/>");
    s.append("<hp:lineNumberShape restartType=\"0\" countBy=\"0\" distance=\"0\" startNumber=\"0\"/>");
    s.append("<hp:pagePr landscape=\"WIDELY\" width=\"59528\" height=\"84186\" gutterType=\"LEFT_ONLY\"><hp:margin header=\"4252\" footer=\"4252\" gutter=\"0\" left=\"8504\" right=\"8504\" top=\"5668\" bottom=\"4252\"/></hp:pagePr>");
    s.append("<hp:footNotePr><hp:autoNumFormat type=\"DIGIT\" userChar=\"\" prefixChar=\"\" suffixChar=\")\" supscript=\"0\"/><hp:noteLine length=\"-1\" type=\"SOLID\" width=\"0.12 mm\" color=\"#000000\"/><hp:noteSpacing betweenNotes=\"283\" belowLine=\"567\" aboveLine=\"850\"/><hp:numbering type=\"CONTINUOUS\" newNum=\"1\"/><hp:placement place=\"EACH_COLUMN\" beneathText=\"0\"/></hp:footNotePr>");
    s.append("<hp:endNotePr><hp:autoNumFormat type=\"DIGIT\" userChar=\"\" prefixChar=\"\" suffixChar=\")\" supscript=\"0\"/><hp:noteLine length=\"14692344\" type=\"SOLID\" width=\"0.12 mm\" color=\"#000000\"/><hp:noteSpacing betweenNotes=\"0\" belowLine=\"567\" aboveLine=\"850\"/><hp:numbering type=\"CONTINUOUS\" newNum=\"1\"/><hp:placement place=\"END_OF_DOCUMENT\" beneathText=\"0\"/></hp:endNotePr>");
    s.append("<hp:pageBorderFill type=\"BOTH\" borderFillIDRef=\"1\" textBorder=\"PAPER\" headerInside=\"0\" footerInside=\"0\" fillArea=\"PAPER\"><hp:offset left=\"1417\" right=\"1417\" top=\"1417\" bottom=\"1417\"/></hp:pageBorderFill>");
    s.append("<hp:pageBorderFill type=\"EVEN\" borderFillIDRef=\"1\" textBorder=\"PAPER\" headerInside=\"0\" footerInside=\"0\" fillArea=\"PAPER\"><hp:offset left=\"1417\" right=\"1417\" top=\"1417\" bottom=\"1417\"/></hp:pageBorderFill>");
    s.append("<hp:pageBorderFill type=\"ODD\" borderFillIDRef=\"1\" textBorder=\"PAPER\" headerInside=\"0\" footerInside=\"0\" fillArea=\"PAPER\"><hp:offset left=\"1417\" right=\"1417\" top=\"1417\" bottom=\"1417\"/></hp:pageBorderFill>");
    s.append("</hp:secPr><hp:ctrl><hp:colPr id=\"\" type=\"NEWSPAPER\" layout=\"LEFT\" colCount=\"1\" sameSz=\"1\" sameGap=\"0\"/></hp:ctrl>");
    assert(s@ =~= s0 + spec_preamble_body());
}

/// The run that carries the section properties.
pub open spec fn preamble_run(char_pr: u32) -> Seq<char> {
    "<hp:run charPrIDRef=\""@ + decimal(char_pr as nat) + "\">"@ + spec_preamble_body() + "</hp:run>"@
}

pub(crate) fn append_preamble_run(s: &mut String, char_pr: u32)
    ensures
        final(s)@ == old(s)@ + preamble_run(char_pr),
{
    let ghost s0 = s@;
    s.append("<hp:run charPrIDRef=\"");
    append_decimal(s, char_pr as u64);
    s.append("\">");
    append_preamble_body(s);
    s.append("</hp:run>");
    assert(s@ =~= s0 + preamble_run(char_pr));
}

/// The opening tag of a paragraph.
pub open spec fn paragraph_open(id: nat, para_pr: u32, style: u32) -> Seq<char> {
    "<hp:p id=\""@ + decimal(id) + "\" paraPrIDRef=\""@ + decimal(para_pr as nat) + "\" styleIDRef=\""@
        + decimal(style as nat) + "\" pageBreak=\"0\" columnBreak=\"0\" merged=\"0\">"@
}

pub(crate) fn append_paragraph_open(s: &mut String, id: u64, para_pr: u32, style: u32)
    ensures
        final(s)@ == old(s)@ + paragraph_open(id as nat, para_pr, style),
{
    let ghost s0 = s@;
    s.append("<hp:p id=\"");
    append_decimal(s, id);
    s.append("\" paraPrIDRef=\"");
    append_decimal(s, para_pr as u64);
    s.append("\" styleIDRef=\"");
    append_decimal(s, style as u64);
    s.append("\" pageBreak=\"0\" columnBreak=\"0\" merged=\"0\">");
    assert(s@ =~= s0 + paragraph_open(id as nat, para_pr, style));
}

/// One run of text.
pub open spec fn spec_run_xml(r: RunV) -> Seq<char> {
    "<hp:run charPrIDRef=\""@ + decimal(r.0 as nat) + "\"><hp:t>"@ + spec_escape_text(r.1) + "</hp:t></hp:run>"@
}

/// The runs of a paragraph, in order.
pub open spec fn spec_runs_xml(runs: Seq<RunV>) -> Seq<char>
    decreases runs.len(),
{
    if runs.len() == 0 {
        seq![]
    } else {
        spec_runs_xml(runs.drop_last()) + spec_run_xml(runs.last())
    }
}

/// The run that an empty paragraph holds.
pub open spec fn empty_run(char_pr: u32) -> Seq<char> {
    "<hp:run charPrIDRef=\""@ + decimal(char_pr as nat) + "\"><hp:t></hp:t></hp:run>"@
}

/// The line layout of a plain paragraph.
pub open spec fn standard_lineseg() -> Seq<char> {
    "<hp:linesegarray><hp:lineseg textpos=\"0\" vertpos=\"0\" vertsize=\"1000\" textheight=\"1000\" baseline=\"850\" spacing=\"600\" horzpos=\"0\" horzsize=\"42520\" flags=\"393216\"/></hp:linesegarray>"@
}

/// The line layout of a list paragraph at a vertical position.
pub open spec fn list_lineseg(vertpos: u32, horzpos: nat, horzsize: nat) -> Seq<char> {
    "<hp:linesegarray><hp:lineseg textpos=\"0\" vertpos=\""@ + decimal(vertpos as nat)
        + "\" vertsize=\"1000\" textheight=\"1000\" baseline=\"850\" spacing=\"600\" horzpos=\""@
        + decimal(horzpos) + "\" horzsize=\""@ + decimal(horzsize) + "\" flags=\"2490368\"/></hp:linesegarray>"@
}

/// The vertical position of the next list paragraph: 2300 further down, in
/// wrapping `u32` arithmetic.
pub open spec fn next_vertpos(v: u32) -> u32 {
    ((v + 2300) % 4294967296) as u32
}

/// The line layout of a paragraph, and the list position after it.
pub open spec fn spec_lineseg(profile: LineSegProfile, vertpos: u32) -> (Seq<char>, u32) {
    match profile {
        LineSegProfile::Standard => (standard_lineseg(), vertpos),
        LineSegProfile::ListLevel1 => (list_lineseg(vertpos, 1100, 41420), next_vertpos(vertpos)),
        LineSegProfile::ListLevel2 => (list_lineseg(vertpos, 2200, 40320), next_vertpos(vertpos)),
    }
}

/// The line layout of the paragraph that holds a table.
pub open spec fn table_lineseg() -> Seq<char> {
    "<hp:linesegarray><hp:lineseg textpos=\"0\" vertpos=\"0\" vertsize=\"4412\" textheight=\"4412\" baseline=\"3750\" spacing=\"600\" horzpos=\"0\" horzsize=\"42520\" flags=\"393216\"/></hp:linesegarray>"@
}

/// A paragraph's markup, and the list position after it.
pub open spec fn spec_paragraph_xml(style: ParagraphStyle, runs: Seq<RunV>, first: bool, index: nat, vertpos: u32) -> (Seq<char>, u32) {
    let ls = spec_lineseg(style.line_seg, vertpos);
    (paragraph_open(para_id(index), style.para_pr, style.style)
        + (if first { preamble_run(style.default_char_pr) } else { seq![] })
        + (if runs.len() == 0 { empty_run(style.default_char_pr) } else { spec_runs_xml(runs) })
        + ls.0 + "</hp:p>"@, ls.1)
}

/// The markup of the paragraph that holds a table.
pub open spec fn spec_table_paragraph(t: TableV, first: bool, index: nat) -> Seq<char> {
    paragraph_open(para_id(index), 0, 0)
        + (if first { preamble_run(6) } else { seq![] })
        + "<hp:run charPrIDRef=\"6\">"@ + spec_table_xml(t) + "<hp:t/></hp:run>"@ + table_lineseg() + "</hp:p>"@
}

/// A section item's markup, and the list position after it.
pub open spec fn spec_item_xml(item: SectionItemV, first: bool, index: nat, vertpos: u32) -> (Seq<char>, u32) {
    match item {
        SectionItemV::Paragraph(style, runs) => spec_paragraph_xml(style, runs, first, index, vertpos),
        SectionItemV::Table(t) => (spec_table_paragraph(t, first, index), vertpos),
    }
}

/// The markup of the section items in order; list positions start at zero.
pub open spec fn spec_body(items: Seq<SectionItemV>) -> (Seq<char>, u32)
    decreases items.len(),
{
    if items.len() == 0 {
        (seq![], 0u32)
    } else {
        let prev = spec_body(items.drop_last());
        let i = (items.len() - 1) as nat;
        let cur = spec_item_xml(items.last(), i == 0, i, prev.1);
        (prev.0 + cur.0, cur.1)
    }
}

/// The XML declaration and the opening tag of the section.
pub open spec fn section_open() -> Seq<char> {
    "<?xml version=\"1.0\" encoding=\"UTF-8\" standalone=\"yes\" ?>"@
        + "<hs:sec xmlns:ha=\"http://www.hancom.co.kr/hwpml/2011/app\" xmlns:hp=\"http://www.hancom.co.kr/hwpml/2011/paragraph\" xmlns:hp10=\"http://www.hancom.co.kr/hwpml/2016/paragraph\" xmlns:hs=\"http://www.hancom.co.kr/hwpml/2011/section\" xmlns:hc=\"http://www.hancom.co.kr/hwpml/2011/core\" xmlns:hh=\"http://www.hancom.co.kr/hwpml/2011/head\" xmlns:hhs=\"http://www.hancom.co.kr/hwpml/2011/history\" xmlns:hm=\"http://www.hancom.co.kr/hwpml/2011/master-page\" xmlns:hpf=\"http://www.hancom.co.kr/schema/2011/hpf\" xmlns:dc=\"http://purl.org/dc/elements/1.1/\" xmlns:opf=\"http://www.idpf.org/2007/opf/\" xmlns:ooxmlchart=\"http://www.hancom.co.kr/hwpml/2016/ooxmlchart\" xmlns:hwpunitchar=\"http://www.hancom.co.kr/hwpml/2016/HwpUnitChar\" xmlns:epub=\"http://www.idpf.org/2007/ops\" xmlns:config=\"urn:oasis:names:tc:opendocument:xmlns:config:1.0\">"@
}

/// A section part around the given paragraphs.
pub(crate) fn section_document(body: &str) -> (s: String)
    ensures
        s@ == section_open() + body@ + "</hs:sec>"@,
{
    let mut s = String::new();
    s.append("<?xml version=\"1.0\" encoding=\"UTF-8\" standalone=\"yes\" ?>");
    s.append("<hs:sec xmlns:ha=\"http://www.hancom.co.kr/hwpml/2011/app\" xmlns:hp=\"http://www.hancom.co.kr/hwpml/2011/paragraph\" xmlns:hp10=\"http://www.hancom.co.kr/hwpml/2016/paragraph\" xmlns:hs=\"http://www.hancom.co.kr/hwpml/2011/section\" xmlns:hc=\"http://www.hancom.co.kr/hwpml/2011/core\" xmlns:hh=\"http://www.hancom.co.kr/hwpml/2011/head\" xmlns:hhs=\"http://www.hancom.co.kr/hwpml/2011/history\" xmlns:hm=\"http://www.hancom.co.kr/hwpml/2011/master-page\" xmlns:hpf=\"http://www.hancom.co.kr/schema/2011/hpf\" xmlns:dc=\"http://purl.org/dc/elements/1.1/\" xmlns:opf=\"http://www.idpf.org/2007/opf/\" xmlns:ooxmlchart=\"http://www.hancom.co.kr/hwpml/2016/ooxmlchart\" xmlns:hwpunitchar=\"http://www.hancom.co.kr/hwpml/2016/HwpUnitChar\" xmlns:epub=\"http://www.idpf.org/2007/ops\" xmlns:config=\"urn:oasis:names:tc:opendocument:xmlns:config:1.0\">");
    s.append(body);
    s.append("</hs:sec>");
    assert(s@ =~= section_open() + body@ + "</hs:sec>"@);
    s
}

/// The section part of a document, or the error that collecting its items meets.
pub open spec fn spec_section_xml(blocks: Seq<BlockV>, strict: bool) -> Result<Seq<char>, ErrorV> {
    match spec_section_items(blocks, strict, spec_ordered_list_shape(blocks)) {
        Ok(items) => Ok(section_open() + spec_body(items).0 + "</hs:sec>"@),
        Err(e) => Err(e),
    }
}

fn append_runs(s: &mut String, runs: &Vec<RunSpec>)
    ensures
        final(s)@ == old(s)@ + spec_runs_xml(runs_view(runs@)),
{
    let ghost s0 = s@;
    let ghost rv = runs_view(runs@);
    let mut i: usize = 0;
    while i < runs.len()
        invariant
            i <= runs.len(),
            rv == runs_view(runs@),
            s@ == s0 + spec_runs_xml(rv.take(i as int)),
        decreases runs.len() - i,
    {
        assert(rv.take(i + 1).drop_last() == rv.take(i as int));
        assert(rv.take(i + 1).last() == runs@[i as int]@);
        let ghost before = s@;
        s.append("<hp:run charPrIDRef=\"");
        append_decimal(s, runs[i].char_pr as u64);
        s.append("\"><hp:t>");
        let escaped = escape_text(runs[i].text.as_str());
        s.append(escaped.as_str());
        s.append("</hp:t></hp:run>");
        assert(s@ =~= before + spec_run_xml(runs@[i as int]@));
        i += 1;
    }
    assert(rv.take(rv.len() as int) == rv);
}

fn append_lineseg(s: &mut String, profile: LineSegProfile, vertpos: &mut u32)
    ensures
        (final(s)@, *final(vertpos)) == ({
            let ls = spec_lineseg(profile, *old(vertpos));
            (old(s)@ + ls.0, ls.1)
        }),
{
    let ghost s0 = s@;
    let (horzpos, horzsize): (u64, u64) = match profile {
        LineSegProfile::Standard => {
            s.append("<hp:linesegarray><hp:lineseg textpos=\"0\" vertpos=\"0\" vertsize=\"1000\" textheight=\"1000\" baseline=\"850\" spacing=\"600\" horzpos=\"0\" horzsize=\"42520\" flags=\"393216\"/></hp:linesegarray>");
            return;
        },
        LineSegProfile::ListLevel1 => (1100, 41420),
        LineSegProfile::ListLevel2 => (2200, 40320),
    };
    let current = *vertpos;
    *vertpos = ((current as u64 + 2300) % 4294967296) as u32;
    s.append("<hp:linesegarray><hp:lineseg textpos=\"0\" vertpos=\"");
    append_decimal(s, current as u64);
    s.append("\" vertsize=\"1000\" textheight=\"1000\" baseline=\"850\" spacing=\"600\" horzpos=\"");
    append_decimal(s, horzpos);
    s.append("\" horzsize=\"");
    append_decimal(s, horzsize);
    s.append("\" flags=\"2490368\"/></hp:linesegarray>");
    assert(s@ =~= s0 + list_lineseg(current, horzpos as nat, horzsize as nat));
}

fn render_paragraph(style: ParagraphStyle, runs: &Vec<RunSpec>, is_first: bool, index: usize, vertpos: &mut u32) -> (s: String)
    ensures
        (s@, *final(vertpos)) == spec_paragraph_xml(style, runs_view(runs@), is_first, index as nat, *old(vertpos)),
{
    let id = paragraph_id(index);
    let mut s = String::new();
    append_paragraph_open(&mut s, id, style.para_pr, style.style);
    let ghost a = s@;
    if is_first {
        append_preamble_run(&mut s, style.default_char_pr);
    }
    assert(s@ =~= a + (if is_first { preamble_run(style.default_char_pr) } else { seq![] }));
    let ghost b = s@;
    if runs.len() == 0 {
        s.append("<hp:run charPrIDRef=\"");
        append_decimal(&mut s, style.default_char_pr as u64);
        s.append("\"><hp:t></hp:t></hp:run>");
        assert(s@ =~= b + empty_run(style.default_char_pr));
    } else {
        append_runs(&mut s, runs);
    }
    let ghost c = s@;
    append_lineseg(&mut s, style.line_seg, vertpos);
    s.append("</hp:p>");
    assert(s@ =~= c + spec_lineseg(style.line_seg, *old(vertpos)).0 + "</hp:p>"@);
    s
}

fn render_table_paragraph(table: &TableSpec, is_first: bool, index: usize) -> (s: String)
    ensures
        s@ == spec_table_paragraph(table@, is_first, index as nat),
{
    let id = paragraph_id(index);
    let mut s = String::new();
    append_paragraph_open(&mut s, id, 0, 0);
    let ghost a = s@;
    if is_first {
        append_preamble_run(&mut s, 6);
    }
    assert(s@ =~= a + (if is_first { preamble_run(6) } else { seq![] }));
    s.append("<hp:run charPrIDRef=\"6\">");
    let t = render_table_xml(table);
    s.append(t.as_str());
    s.append("<hp:t/></hp:run>");
    s.append("<hp:linesegarray><hp:lineseg textpos=\"0\" vertpos=\"0\" vertsize=\"4412\" textheight=\"4412\" baseline=\"3750\" spacing=\"600\" horzpos=\"0\" horzsize=\"42520\" flags=\"393216\"/></hp:linesegarray>");
    s.append("</hp:p>");
    s
}

fn render_section_item(item: &SectionItem, is_first: bool, index: usize, vertpos: &mut u32) -> (s: String)
    ensures
        (s@, *final(vertpos)) == spec_item_xml(item@, is_first, index as nat, *old(vertpos)),
{
    match item {
        SectionItem::Paragraph(style, runs) => render_paragraph(*style, runs, is_first, index, vertpos),
        SectionItem::Table(table) => render_table_paragraph(table, is_first, index),
    }
}

/// The section part of an HWPX package for a document. Fails exactly where
/// collecting the document's section items fails, with that error.
pub fn build_section_xml(document: &Document, strict_mode: bool, _style: &ResolvedHwpxStyle) -> (r: Result<String, CoreRsError>)
    ensures
        match spec_section_xml(document@, strict_mode) {
            Ok(x) => r matches Ok(s) && s@ == x,
            Err(e) => r matches Err(er) && er@ == e,
        },
{
    let shape = ordered_list_shape(&document.blocks);
    let items = match collect_section_items(&document.blocks, strict_mode, shape) {
        Ok(items) => items,
        Err(e) => return Err(e),
    };
    let ghost iv = items_seq_view(items@);
    let mut body = String::new();
    let mut vertpos: u32 = 0;
    let mut i: usize = 0;
    while i < items.len()
        invariant
            i <= items.len(),
            iv == items_seq_view(items@),
            (body@, vertpos) == spec_body(iv.take(i as int)),
        decreases items.len() - i,
    {
        assert(iv.take(i + 1).drop_last() == iv.take(i as int));
        assert(iv.take(i + 1).last() == items@[i as int]@);
        let xml = render_section_item(&items[i], i == 0, i, &mut vertpos);
        body.append(xml.as_str());
        i += 1;
    }
    assert(iv.take(iv.len() as int) == iv);
    Ok(section_document(body.as_str()))
}

/// The text of a paragraph's runs, run together.
pub open spec fn spec_run_text(runs: Seq<RunV>) -> Seq<char>
    decreases runs.len(),
{
    if runs.len() == 0 {
        seq![]
    } else {
        spec_run_text(runs.drop_last()) + runs.last().1
    }
}

/// The lines of preview text: one per paragraph, one per table row.
pub open spec fn spec_visible(items: Seq<SectionItemV>) -> Seq<Seq<char>>
    decreases items.len(),
{
    if items.len() == 0 {
        seq![]
    } else {
        spec_visible(items.drop_last()) + match items.last() {
            SectionItemV::Paragraph(_, runs) => seq![spec_run_text(runs)],
            SectionItemV::Table(t) => spec_row_paragraphs(t.rows),
        }
    }
}

/// What a scan of the items gathers for the caret: the index of the next preview
/// line, the caret after the last unordered list paragraph, and the caret after
/// each ordered list paragraph with its list kind. A caret is a line index and a
/// character offset: the end of that line.
pub open spec fn spec_caret_scan(items: Seq<SectionItemV>) -> (nat, Option<(nat, nat)>, Seq<(ListSemantic, (nat, nat))>)
    decreases items.len(),
{
    if items.len() == 0 {
        (0, None, seq![])
    } else {
        let prev = spec_caret_scan(items.drop_last());
        let idx = prev.0;
        match items.last() {
            SectionItemV::Paragraph(style, runs) => {
                let caret = (idx, spec_run_text(runs).len());
                match style.list_semantic {
                    ListSemantic::NotListed => (idx + 1, prev.1, prev.2),
                    ListSemantic::Unordered => (idx + 1, Some(caret), prev.2),
                    _ => (idx + 1, prev.1, prev.2.push((style.list_semantic, caret))),
                }
            },
            SectionItemV::Table(t) => (idx + t.rows.len(), prev.1, prev.2),
        }
    }
}

/// Every ordered list paragraph belongs to a list of one level.
pub open spec fn all_single_level(ordered: Seq<(ListSemantic, (nat, nat))>) -> bool {
    forall|k: int| 0 <= k < ordered.len() ==> #[trigger] ordered[k].0 == ListSemantic::OrderedSingleLevel
}

/// The caret that the lists call for: with ordered list paragraphs, the end of the
/// last one (of the one before it, where there are several and all are of one
/// level); else the end of the last unordered list paragraph; else none.
pub open spec fn spec_list_caret(items: Seq<SectionItemV>) -> Option<(nat, nat)> {
    let scan = spec_caret_scan(items);
    let ordered = scan.2;
    if ordered.len() > 0 {
        if ordered.len() > 1 && all_single_level(ordered) {
            Some(ordered[ordered.len() - 2].1)
        } else {
            Some(ordered.last().1)
        }
    } else {
        scan.1
    }
}

/// Some item is a table.
pub open spec fn spec_has_table(items: Seq<SectionItemV>) -> bool {
    exists|k: int| 0 <= k < items.len() && #[trigger] items[k] is Table
}

/// The caret that the settings record after a preview: line 0, offset 16 with a
/// table; else the list caret; else line 0, offset 45.
pub open spec fn spec_preview_caret(items: Seq<SectionItemV>) -> (nat, nat) {
    if spec_has_table(items) {
        (0, 16)
    } else {
        match spec_list_caret(items) {
            Some(c) => c,
            None => (0, 45),
        }
    }
}

/// A caret position in the settings part: a paragraph index and a character offset.
#[derive(Debug, Clone, Copy, PartialEq, Eq, Structural)]
pub struct CaretPosition {
    pub para_id_ref: usize,
    pub pos: usize,
}

impl Default for CaretPosition {
    /// The caret of a package with no preview: line 0, offset 45.
    fn default() -> (c: CaretPosition)
        ensures
            c.para_id_ref == 0,
            c.pos == 45,
    {
        CaretPosition { para_id_ref: 0, pos: 45 }
    }
}

/// Moves the caret to an offset in the first paragraph.
pub fn set_settings_caret_pos(caret: &mut CaretPosition, pos: usize)
    ensures
        final(caret).para_id_ref == 0,
        final(caret).pos == pos,
{
    set_settings_caret(caret, 0, pos);
}

/// Moves the caret to an offset in a paragraph.
pub fn set_settings_caret(caret: &mut CaretPosition, para_id_ref: usize, pos: usize)
    ensures
        final(caret).para_id_ref == para_id_ref,
        final(caret).pos == pos,
{
    *caret = CaretPosition { para_id_ref, pos };
}

pub open spec fn caret_view(c: (usize, usize)) -> (nat, nat) {
    (c.0 as nat, c.1 as nat)
}

pub open spec fn opt_caret_view(o: Option<(usize, usize)>) -> Option<(nat, nat)> {
    match o {
        Some(c) => Some(caret_view(c)),
        None => None,
    }
}

pub open spec fn ordered_view(s: Seq<(ListSemantic, (usize, usize))>) -> Seq<(ListSemantic, (nat, nat))> {
    s.map_values(|e: (ListSemantic, (usize, usize))| (e.0, caret_view(e.1)))
}

fn run_text(runs: &Vec<RunSpec>) -> (t: String)
    ensures
        t@ == spec_run_text(runs_view(runs@)),
{
    let ghost rv = runs_view(runs@);
    let mut t = String::new();
    let mut i: usize = 0;
    while i < runs.len()
        invariant
            i <= runs.len(),
            rv == runs_view(runs@),
            t@ == spec_run_text(rv.take(i as int)),
        decreases runs.len() - i,
    {
        assert(rv.take(i + 1).drop_last() == rv.take(i as int));
        assert(rv.take(i + 1).last() == runs@[i as int]@);
        t.append(runs[i].text.as_str());
        i += 1;
    }
    assert(rv.take(rv.len() as int) == rv);
    t
}

/// The plain-text preview of a document: its paragraphs and table rows, one per
/// line, joined with CR LF. On success the caret moves as `spec_preview_caret`
/// says; where collecting the section items fails, with that error, the caret
/// stays.
pub fn build_preview_text(document: &Document, strict_mode: bool, caret: &mut CaretPosition) -> (r: Result<String, CoreRsError>)
    ensures
        match spec_section_items(document@, strict_mode, spec_ordered_list_shape(document@)) {
            Ok(items) => r matches Ok(t) && t@ == spec_join(spec_visible(items), "\r\n"@)
                && final(caret).para_id_ref == spec_preview_caret(items).0
                && final(caret).pos == spec_preview_caret(items).1,
            Err(e) => r matches Err(er) && er@ == e && *final(caret) == *old(caret),
        },
{
    let shape = ordered_list_shape(&document.blocks);
    let items = match collect_section_items(&document.blocks, strict_mode, shape) {
        Ok(items) => items,
        Err(e) => return Err(e),
    };
    let ghost iv = items_seq_view(items@);
    let mut visible: Vec<String> = Vec::new();
    let mut has_table = false;
    let mut last_unordered: Option<(usize, usize)> = None;
    let mut ordered: Vec<(ListSemantic, (usize, usize))> = Vec::new();
    let mut i: usize = 0;
    while i < items.len()
        invariant
            i <= items.len(),
            iv == items_seq_view(items@),
            strings_view(visible@) == spec_visible(iv.take(i as int)),
            has_table == spec_has_table(iv.take(i as int)),
            spec_caret_scan(iv.take(i as int)) == (visible@.len() as nat, opt_caret_view(last_unordered), ordered_view(ordered@)),
        decreases items.len() - i,
    {
        let ghost prev = iv.take(i as int);
        assert(iv.take(i + 1).drop_last() == prev);
        assert(iv.take(i + 1).last() == items@[i as int]@);
        assert(iv.take(i + 1)[i as int] == items@[i as int]@);
        match &items[i] {
            SectionItem::Paragraph(style, runs) => {
                let text = run_text(runs);
                let n = chars_of(text.as_str()).len();
                let c = (visible.len(), n);
                match style.list_semantic {
                    ListSemantic::NotListed => {},
                    ListSemantic::Unordered => {
                        last_unordered = Some(c);
                    },
                    _ => {
                        let ghost before = ordered@;
                        ordered.push((style.list_semantic, c));
                        assert(ordered_view(ordered@) =~= ordered_view(before).push((style.list_semantic, caret_view(c))));
                    },
                }
                let ghost vb = visible@;
                visible.push(text);
                assert(strings_view(visible@) =~= strings_view(vb).push(text@));
                assert(spec_has_table(iv.take(i + 1)) == spec_has_table(prev)) by {
                    if spec_has_table(iv.take(i + 1)) {
                        let k = choose|k: int| 0 <= k < iv.take(i + 1).len() && #[trigger] iv.take(i + 1)[k] is Table;
                        assert(k < i);
                        assert(prev[k] == iv.take(i + 1)[k]);
                    }
                    if spec_has_table(prev) {
                        let k = choose|k: int| 0 <= k < prev.len() && #[trigger] prev[k] is Table;
                        assert(iv.take(i + 1)[k] == prev[k]);
                    }
                }
            },
            SectionItem::Table(table) => {
                has_table = true;
                assert(iv.take(i + 1)[i as int] is Table);
                let rows = table.row_paragraphs();
                let ghost vb = visible@;
                let mut k: usize = 0;
                while k < rows.len()
                    invariant
                        k <= rows.len(),
                        strings_view(visible@) == strings_view(vb) + strings_view(rows@).take(k as int),
                    decreases rows.len() - k,
                {
                    let ghost before = visible@;
                    let line = rows[k].clone();
                    assert(line@ == strings_view(rows@)[k as int]);
                    visible.push(line);
                    assert(strings_view(visible@) =~= strings_view(before).push(line@));
                    assert(strings_view(rows@).take(k + 1) =~= strings_view(rows@).take(k as int).push(line@));
                    assert(strings_view(visible@) =~= strings_view(vb) + strings_view(rows@).take(k + 1));
                    k += 1;
                }
                assert(strings_view(rows@).take(rows@.len() as int) == strings_view(rows@));
            },
        }
        i += 1;
    }
    assert(iv.take(iv.len() as int) == iv);
    let (para, pos): (usize, usize) = if has_table {
        (0, 16)
    } else if ordered.len() > 0 {
        let mut all_single = true;
        let mut k: usize = 0;
        while k < ordered.len()
            invariant
                k <= ordered.len(),
                all_single == (forall|m: int| 0 <= m < k ==> #[trigger] ordered@[m].0 == ListSemantic::OrderedSingleLevel),
            decreases ordered.len() - k,
        {
            if ordered[k].0 != ListSemantic::OrderedSingleLevel {
                all_single = false;
            }
            k += 1;
        }
        assert(all_single == all_single_level(ordered_view(ordered@))) by {
            let ov = ordered_view(ordered@);
            assert(ov.len() == ordered@.len());
            assert(forall|m: int| 0 <= m < ordered@.len() ==> #[trigger] ov[m] == (ordered@[m].0, caret_view(ordered@[m].1)));
            if all_single {
                assert forall|m: int| 0 <= m < ov.len() implies #[trigger] ov[m].0 == ListSemantic::OrderedSingleLevel by {
                    assert(ordered@[m].0 == ListSemantic::OrderedSingleLevel);
                }
            } else {
                let m = choose|m: int| 0 <= m < ordered@.len() && !(#[trigger] ordered@[m].0 == ListSemantic::OrderedSingleLevel);
                assert(ov[m].0 != ListSemantic::OrderedSingleLevel);
            }
        }
        if all_single && ordered.len() > 1 {
            ordered[ordered.len() - 2].1
        } else {
            ordered[ordered.len() - 1].1
        }
    } else {
        match last_unordered {
            Some(c) => c,
            None => (0, 45),
        }
    };
    set_settings_caret(caret, para, pos);
    let text = join_strings(&visible, "\r\n");
    Ok(text)
}

} // verus!
