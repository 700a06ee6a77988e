//! The header part of an HWPX package: the template's character and paragraph
//! properties adjusted to the document's style, with the border fill and list
//! numbering that its tables and lists need.
use vstd::prelude::*;
use crate::generators::hwpx::items::{ordered_depth_blocks, spec_ordered_depth_blocks, max_u8};
use crate::generators::hwpx::style::{ResolvedHwpxStyle, ResolvedStyleV, spec_is_default};
use crate::models::block::{Block, BlockV, blocks_view, items_view};
use crate::models::document::Document;
use crate::models::inline::{Inline, InlineV, inlines_view};
use crate::utils::text::{
    append_decimal, append_if, chars_of, contains, decimal, find_at, lemma_find_at, owned,
    replace_all, replace_first, signed_decimal, signed_decimal_string, spec_contains, spec_find_at,
    spec_replace, spec_replace_first, substring,
};
use crate::utils::xml_helper::{escape_attr, spec_escape_attr};

verus! {

broadcast use crate::models::block::group_view_lemmas;

/// The border fill that table cells refer to.
pub open spec fn spec_table_border_fill() -> Seq<char> {
    "<hh:borderFill id=\"3\" threeD=\"0\" shadow=\"0\" centerLine=\"NONE\" breakCellSeparateLine=\"0\"><hh:slash type=\"NONE\" Crooked=\"0\" isCounter=\"0\"/><hh:backSlash type=\"NONE\" Crooked=\"0\" isCounter=\"0\"/>"@
        + "<hh:leftBorder type=\"SOLID\" width=\"0.12 mm\" color=\"#000000\"/><hh:rightBorder type=\"SOLID\" width=\"0.12 mm\" color=\"#000000\"/><hh:topBorder type=\"SOLID\" width=\"0.12 mm\" color=\"#000000\"/>"@
        + "<hh:bottomBorder type=\"SOLID\" width=\"0.12 mm\" color=\"#000000\"/><hh:diagonal type=\"SOLID\" width=\"0.1 mm\" color=\"#000000\"/></hh:borderFill>"@
}

fn table_border_fill_xml() -> (s: String)
    ensures
        s@ == spec_table_border_fill(),
{
    let mut s = owned("<hh:borderFill id=\"3\" threeD=\"0\" shadow=\"0\" centerLine=\"NONE\" breakCellSeparateLine=\"0\"><hh:slash type=\"NONE\" Crooked=\"0\" isCounter=\"0\"/><hh:backSlash type=\"NONE\" Crooked=\"0\" isCounter=\"0\"/>");
    s.append("<hh:leftBorder type=\"SOLID\" width=\"0.12 mm\" color=\"#000000\"/><hh:rightBorder type=\"SOLID\" width=\"0.12 mm\" color=\"#000000\"/><hh:topBorder type=\"SOLID\" width=\"0.12 mm\" color=\"#000000\"/>");
    s.append("<hh:bottomBorder type=\"SOLID\" width=\"0.12 mm\" color=\"#000000\"/><hh:diagonal type=\"SOLID\" width=\"0.1 mm\" color=\"#000000\"/></hh:borderFill>");
    s
}

/// The bullet that unordered list paragraphs refer to.
pub open spec fn spec_list_bullets() -> Seq<char> {
    "<hh:bullets itemCnt=\"1\"><hh:bullet id=\"1\" char=\"\" useImage=\"0\"><hh:paraHead level=\"0\" align=\"LEFT\" useInstWidth=\"0\" autoIndent=\"1\" widthAdjust=\"0\" textOffsetType=\"PERCENT\" textOffset=\"50\" numFormat=\"DIGIT\" charPrIDRef=\"4294967295\" checkable=\"0\"/>"@
        + "</hh:bullet></hh:bullets>"@
}

fn list_bullets_xml() -> (s: String)
    ensures
        s@ == spec_list_bullets(),
{
    let mut s = owned("<hh:bullets itemCnt=\"1\"><hh:bullet id=\"1\" char=\"\" useImage=\"0\"><hh:paraHead level=\"0\" align=\"LEFT\" useInstWidth=\"0\" autoIndent=\"1\" widthAdjust=\"0\" textOffsetType=\"PERCENT\" textOffset=\"50\" numFormat=\"DIGIT\" charPrIDRef=\"4294967295\" checkable=\"0\"/>");
    s.append("</hh:bullet></hh:bullets>");
    s
}

/// The paragraph properties of first-level unordered list paragraphs.
pub open spec fn spec_list_level1() -> Seq<char> {
    "<hh:paraPr id=\"19\" tabPrIDRef=\"2\" condense=\"0\" fontLineHeight=\"0\" snapToGrid=\"1\" suppressLineNumbers=\"0\" checked=\"0\"><hh:align horizontal=\"LEFT\" vertical=\"BASELINE\"/><hh:heading type=\"BULLET\" idRef=\"1\" level=\"0\"/>"@
        + "<hh:breakSetting breakLatinWord=\"KEEP_WORD\" breakNonLatinWord=\"BREAK_WORD\" widowOrphan=\"0\" keepWithNext=\"0\" keepLines=\"0\" pageBreakBefore=\"0\" lineWrap=\"BREAK\"/><hh:autoSpacing eAsianEng=\"0\" eAsianNum=\"0\"/>"@
        + "<hp:switch><hp:case hp:required-namespace=\"http://www.hancom.co.kr/hwpml/2016/HwpUnitChar\"><hh:margin><hc:intent value=\"0\" unit=\"HWPUNIT\"/><hc:left value=\"1100\" unit=\"HWPUNIT\"/><hc:right value=\"0\" unit=\"HWPUNIT\"/><hc:prev value=\"0\" unit=\"HWPUNIT\"/><hc:next value=\"700\" unit=\"HWPUNIT\"/></hh:margin><hh:lineSpacing type=\"PERCENT\" value=\"160\" unit=\"HWPUNIT\"/></hp:case><hp:default><hh:margin><hc:intent value=\"0\" unit=\"HWPUNIT\"/><hc:left value=\"2200\" unit=\"HWPUNIT\"/><hc:right value=\"0\" unit=\"HWPUNIT\"/><hc:prev value=\"0\" unit=\"HWPUNIT\"/><hc:next value=\"1400\" unit=\"HWPUNIT\"/></hh:margin><hh:lineSpacing type=\"PERCENT\" value=\"160\" unit=\"HWPUNIT\"/></hp:default></hp:switch>"@
        + "<hh:border borderFillIDRef=\"2\" offsetLeft=\"0\" offsetRight=\"0\" offsetTop=\"0\" offsetBottom=\"0\" connect=\"0\" ignoreMargin=\"0\"/></hh:paraPr>"@
}

fn list_level1_xml() -> (s: String)
    ensures
        s@ == spec_list_level1(),
{
    let mut s = owned("<hh:paraPr id=\"19\" tabPrIDRef=\"2\" condense=\"0\" fontLineHeight=\"0\" snapToGrid=\"1\" suppressLineNumbers=\"0\" checked=\"0\"><hh:align horizontal=\"LEFT\" vertical=\"BASELINE\"/><hh:heading type=\"BULLET\" idRef=\"1\" level=\"0\"/>");
    s.append("<hh:breakSetting breakLatinWord=\"KEEP_WORD\" breakNonLatinWord=\"BREAK_WORD\" widowOrphan=\"0\" keepWithNext=\"0\" keepLines=\"0\" pageBreakBefore=\"0\" lineWrap=\"BREAK\"/><hh:autoSpacing eAsianEng=\"0\" eAsianNum=\"0\"/>");
    s.append("<hp:switch><hp:case hp:required-namespace=\"http://www.hancom.co.kr/hwpml/2016/HwpUnitChar\"><hh:margin><hc:intent value=\"0\" unit=\"HWPUNIT\"/><hc:left value=\"1100\" unit=\"HWPUNIT\"/><hc:right value=\"0\" unit=\"HWPUNIT\"/><hc:prev value=\"0\" unit=\"HWPUNIT\"/><hc:next value=\"700\" unit=\"HWPUNIT\"/></hh:margin><hh:lineSpacing type=\"PERCENT\" value=\"160\" unit=\"HWPUNIT\"/></hp:case><hp:default><hh:margin><hc:intent value=\"0\" unit=\"HWPUNIT\"/><hc:left value=\"2200\" unit=\"HWPUNIT\"/><hc:right value=\"0\" unit=\"HWPUNIT\"/><hc:prev value=\"0\" unit=\"HWPUNIT\"/><hc:next value=\"1400\" unit=\"HWPUNIT\"/></hh:margin><hh:lineSpacing type=\"PERCENT\" value=\"160\" unit=\"HWPUNIT\"/></hp:default></hp:switch>");
    s.append("<hh:border borderFillIDRef=\"2\" offsetLeft=\"0\" offsetRight=\"0\" offsetTop=\"0\" offsetBottom=\"0\" connect=\"0\" ignoreMargin=\"0\"/></hh:paraPr>");
    s
}

/// The paragraph properties of second-level unordered list paragraphs.
pub open spec fn spec_list_level2() -> Seq<char> {
    "<hh:paraPr id=\"20\" tabPrIDRef=\"2\" condense=\"0\" fontLineHeight=\"0\" snapToGrid=\"1\" suppressLineNumbers=\"0\" checked=\"0\"><hh:align horizontal=\"LEFT\" vertical=\"BASELINE\"/><hh:heading type=\"BULLET\" idRef=\"1\" level=\"0\"/>"@
        + "<hh:breakSetting breakLatinWord=\"KEEP_WORD\" breakNonLatinWord=\"BREAK_WORD\" widowOrphan=\"0\" keepWithNext=\"0\" keepLines=\"0\" pageBreakBefore=\"0\" lineWrap=\"BREAK\"/><hh:autoSpacing eAsianEng=\"0\" eAsianNum=\"0\"/>"@
        + "<hp:switch><hp:case hp:required-namespace=\"http://www.hancom.co.kr/hwpml/2016/HwpUnitChar\"><hh:margin><hc:intent value=\"0\" unit=\"HWPUNIT\"/><hc:left value=\"2200\" unit=\"HWPUNIT\"/><hc:right value=\"0\" unit=\"HWPUNIT\"/><hc:prev value=\"0\" unit=\"HWPUNIT\"/><hc:next value=\"700\" unit=\"HWPUNIT\"/></hh:margin><hh:lineSpacing type=\"PERCENT\" value=\"160\" unit=\"HWPUNIT\"/></hp:case><hp:default><hh:margin><hc:intent value=\"0\" unit=\"HWPUNIT\"/><hc:left value=\"4400\" unit=\"HWPUNIT\"/><hc:right value=\"0\" unit=\"HWPUNIT\"/><hc:prev value=\"0\" unit=\"HWPUNIT\"/><hc:next value=\"1400\" unit=\"HWPUNIT\"/></hh:margin><hh:lineSpacing type=\"PERCENT\" value=\"160\" unit=\"HWPUNIT\"/></hp:default></hp:switch>"@
        + "<hh:border borderFillIDRef=\"2\" offsetLeft=\"0\" offsetRight=\"0\" offsetTop=\"0\" offsetBottom=\"0\" connect=\"0\" ignoreMargin=\"0\"/></hh:paraPr>"@
}

fn list_level2_xml() -> (s: String)
    ensures
        s@ == spec_list_level2(),
{
    let mut s = owned("<hh:paraPr id=\"20\" tabPrIDRef=\"2\" condense=\"0\" fontLineHeight=\"0\" snapToGrid=\"1\" suppressLineNumbers=\"0\" checked=\"0\"><hh:align horizontal=\"LEFT\" vertical=\"BASELINE\"/><hh:heading type=\"BULLET\" idRef=\"1\" level=\"0\"/>");
    s.append("<hh:breakSetting breakLatinWord=\"KEEP_WORD\" breakNonLatinWord=\"BREAK_WORD\" widowOrphan=\"0\" keepWithNext=\"0\" keepLines=\"0\" pageBreakBefore=\"0\" lineWrap=\"BREAK\"/><hh:autoSpacing eAsianEng=\"0\" eAsianNum=\"0\"/>");
    s.append("<hp:switch><hp:case hp:required-namespace=\"http://www.hancom.co.kr/hwpml/2016/HwpUnitChar\"><hh:margin><hc:intent value=\"0\" unit=\"HWPUNIT\"/><hc:left value=\"2200\" unit=\"HWPUNIT\"/><hc:right value=\"0\" unit=\"HWPUNIT\"/><hc:prev value=\"0\" unit=\"HWPUNIT\"/><hc:next value=\"700\" unit=\"HWPUNIT\"/></hh:margin><hh:lineSpacing type=\"PERCENT\" value=\"160\" unit=\"HWPUNIT\"/></hp:case><hp:default><hh:margin><hc:intent value=\"0\" unit=\"HWPUNIT\"/><hc:left value=\"4400\" unit=\"HWPUNIT\"/><hc:right value=\"0\" unit=\"HWPUNIT\"/><hc:prev value=\"0\" unit=\"HWPUNIT\"/><hc:next value=\"1400\" unit=\"HWPUNIT\"/></hh:margin><hh:lineSpacing type=\"PERCENT\" value=\"160\" unit=\"HWPUNIT\"/></hp:default></hp:switch>");
    s.append("<hh:border borderFillIDRef=\"2\" offsetLeft=\"0\" offsetRight=\"0\" offsetTop=\"0\" offsetBottom=\"0\" connect=\"0\" ignoreMargin=\"0\"/></hh:paraPr>");
    s
}

/// The character properties that a header with the default style gains for
/// strong, emphasis, code, heading and link text.
pub open spec fn spec_legacy_char_prs() -> Seq<char> {
    "<hh:charPr id=\"7\" height=\"1000\" textColor=\"#000000\" shadeColor=\"none\" useFontSpace=\"0\" useKerning=\"0\" symMark=\"NONE\" borderFillIDRef=\"2\"><hh:fontRef hangul=\"1\" latin=\"1\" hanja=\"1\" japanese=\"1\" other=\"1\" symbol=\"1\" user=\"1\"/><hh:ratio hangul=\"100\" latin=\"100\" hanja=\"100\" japanese=\"100\" other=\"100\" symbol=\"100\" user=\"100\"/><hh:spacing hangul=\"0\" latin=\"0\" hanja=\"0\" japanese=\"0\" other=\"0\" symbol=\"0\" user=\"0\"/><hh:relSz hangul=\"100\" latin=\"100\" hanja=\"100\" japanese=\"100\" other=\"100\" symbol=\"100\" user=\"100\"/><hh:offset hangul=\"0\" latin=\"0\" hanja=\"0\" japanese=\"0\" other=\"0\" symbol=\"0\" user=\"0\"/><hh:bold/><hh:underline type=\"NONE\" shape=\"SOLID\" color=\"#000000\"/><hh:strikeout shape=\"NONE\" color=\"#000000\"/><hh:outline type=\"NONE\"/><hh:shadow type=\"NONE\" color=\"#C0C0C0\" offsetX=\"10\" offsetY=\"10\"/></hh:charPr>"@
        + "<hh:charPr id=\"8\" height=\"1000\" textColor=\"#000000\" shadeColor=\"none\" useFontSpace=\"0\" useKerning=\"0\" symMark=\"NONE\" borderFillIDRef=\"2\"><hh:fontRef hangul=\"1\" latin=\"1\" hanja=\"1\" japanese=\"1\" other=\"1\" symbol=\"1\" user=\"1\"/><hh:ratio hangul=\"100\" latin=\"100\" hanja=\"100\" japanese=\"100\" other=\"100\" symbol=\"100\" user=\"100\"/><hh:spacing hangul=\"0\" latin=\"0\" hanja=\"0\" japanese=\"0\" other=\"0\" symbol=\"0\" user=\"0\"/><hh:relSz hangul=\"100\" latin=\"100\" hanja=\"100\" japanese=\"100\" other=\"100\" symbol=\"100\" user=\"100\"/><hh:offset hangul=\"0\" latin=\"0\" hanja=\"0\" japanese=\"0\" other=\"0\" symbol=\"0\" user=\"0\"/><hh:italic/><hh:underline type=\"NONE\" shape=\"SOLID\" color=\"#000000\"/><hh:strikeout shape=\"NONE\" color=\"#000000\"/><hh:outline type=\"NONE\"/><hh:shadow type=\"NONE\" color=\"#C0C0C0\" offsetX=\"10\" offsetY=\"10\"/></hh:charPr>"@
        + "<hh:charPr id=\"9\" height=\"1000\" textColor=\"#333333\" shadeColor=\"none\" useFontSpace=\"0\" useKerning=\"0\" symMark=\"NONE\" borderFillIDRef=\"2\"><hh:fontRef hangul=\"0\" latin=\"0\" hanja=\"0\" japanese=\"0\" other=\"0\" symbol=\"0\" user=\"0\"/><hh:ratio hangul=\"100\" latin=\"100\" hanja=\"100\" japanese=\"100\" other=\"100\" symbol=\"100\" user=\"100\"/><hh:spacing hangul=\"-5\" latin=\"-5\" hanja=\"-5\" japanese=\"-5\" other=\"-5\" symbol=\"-5\" user=\"-5\"/><hh:relSz hangul=\"100\" latin=\"100\" hanja=\"100\" japanese=\"100\" other=\"100\" symbol=\"100\" user=\"100\"/><hh:offset hangul=\"0\" latin=\"0\" hanja=\"0\" japanese=\"0\" other=\"0\" symbol=\"0\" user=\"0\"/><hh:underline type=\"NONE\" shape=\"SOLID\" color=\"#000000\"/><hh:strikeout shape=\"NONE\" color=\"#000000\"/><hh:outline type=\"NONE\"/><hh:shadow type=\"NONE\" color=\"#C0C0C0\" offsetX=\"10\" offsetY=\"10\"/></hh:charPr>"@
        + "<hh:charPr id=\"10\" height=\"1400\" textColor=\"#2E74B5\" shadeColor=\"none\" useFontSpace=\"0\" useKerning=\"0\" symMark=\"NONE\" borderFillIDRef=\"2\"><hh:fontRef hangul=\"1\" latin=\"1\" hanja=\"1\" japanese=\"1\" other=\"1\" symbol=\"1\" user=\"1\"/><hh:ratio hangul=\"100\" latin=\"100\" hanja=\"100\" japanese=\"100\" other=\"100\" symbol=\"100\" user=\"100\"/><hh:spacing hangul=\"0\" latin=\"0\" hanja=\"0\" japanese=\"0\" other=\"0\" symbol=\"0\" user=\"0\"/><hh:relSz hangul=\"100\" latin=\"100\" hanja=\"100\" japanese=\"100\" other=\"100\" symbol=\"100\" user=\"100\"/><hh:offset hangul=\"0\" latin=\"0\" hanja=\"0\" japanese=\"0\" other=\"0\" symbol=\"0\" user=\"0\"/><hh:bold/><hh:underline type=\"NONE\" shape=\"SOLID\" color=\"#2E74B5\"/><hh:strikeout shape=\"NONE\" color=\"#2E74B5\"/><hh:outline type=\"NONE\"/><hh:shadow type=\"NONE\" color=\"#C0C0C0\" offsetX=\"10\" offsetY=\"10\"/></hh:charPr>"@
        + "<hh:charPr id=\"11\" height=\"1300\" textColor=\"#1F1F1F\" shadeColor=\"none\" useFontSpace=\"0\" useKerning=\"0\" symMark=\"NONE\" borderFillIDRef=\"2\"><hh:fontRef hangul=\"1\" latin=\"1\" hanja=\"1\" japanese=\"1\" other=\"1\" symbol=\"1\" user=\"1\"/><hh:ratio hangul=\"100\" latin=\"100\" hanja=\"100\" japanese=\"100\" other=\"100\" symbol=\"100\" user=\"100\"/><hh:spacing hangul=\"0\" latin=\"0\" hanja=\"0\" japanese=\"0\" other=\"0\" symbol=\"0\" user=\"0\"/><hh:relSz hangul=\"100\" latin=\"100\" hanja=\"100\" japanese=\"100\" other=\"100\" symbol=\"100\" user=\"100\"/><hh:offset hangul=\"0\" latin=\"0\" hanja=\"0\" japanese=\"0\" other=\"0\" symbol=\"0\" user=\"0\"/><hh:bold/><hh:underline type=\"NONE\" shape=\"SOLID\" color=\"#1F1F1F\"/><hh:strikeout shape=\"NONE\" color=\"#1F1F1F\"/><hh:outline type=\"NONE\"/><hh:shadow type=\"NONE\" color=\"#C0C0C0\" offsetX=\"10\" offsetY=\"10\"/></hh:charPr>"@
        + "<hh:charPr id=\"12\" height=\"1200\" textColor=\"#1F1F1F\" shadeColor=\"none\" useFontSpace=\"0\" useKerning=\"0\" symMark=\"NONE\" borderFillIDRef=\"2\"><hh:fontRef hangul=\"1\" latin=\"1\" hanja=\"1\" japanese=\"1\" other=\"1\" symbol=\"1\" user=\"1\"/><hh:ratio hangul=\"100\" latin=\"100\" hanja=\"100\" japanese=\"100\" other=\"100\" symbol=\"100\" user=\"100\"/><hh:spacing hangul=\"0\" latin=\"0\" hanja=\"0\" japanese=\"0\" other=\"0\" symbol=\"0\" user=\"0\"/><hh:relSz hangul=\"100\" latin=\"100\" hanja=\"100\" japanese=\"100\" other=\"100\" symbol=\"100\" user=\"100\"/><hh:offset hangul=\"0\" latin=\"0\" hanja=\"0\" japanese=\"0\" other=\"0\" symbol=\"0\" user=\"0\"/><hh:bold/><hh:underline type=\"NONE\" shape=\"SOLID\" color=\"#1F1F1F\"/><hh:strikeout shape=\"NONE\" color=\"#1F1F1F\"/><hh:outline type=\"NONE\"/><hh:shadow type=\"NONE\" color=\"#C0C0C0\" offsetX=\"10\" offsetY=\"10\"/></hh:charPr>"@
        + "<hh:charPr id=\"13\" height=\"1100\" textColor=\"#1F1F1F\" shadeColor=\"none\" useFontSpace=\"0\" useKerning=\"0\" symMark=\"NONE\" borderFillIDRef=\"2\"><hh:fontRef hangul=\"1\" latin=\"1\" hanja=\"1\" japanese=\"1\" other=\"1\" symbol=\"1\" user=\"1\"/><hh:ratio hangul=\"100\" latin=\"100\" hanja=\"100\" japanese=\"100\" other=\"100\" symbol=\"100\" user=\"100\"/><hh:spacing hangul=\"0\" latin=\"0\" hanja=\"0\" japanese=\"0\" other=\"0\" symbol=\"0\" user=\"0\"/><hh:relSz hangul=\"100\" latin=\"100\" hanja=\"100\" japanese=\"100\" other=\"100\" symbol=\"100\" user=\"100\"/><hh:offset hangul=\"0\" latin=\"0\" hanja=\"0\" japanese=\"0\" other=\"0\" symbol=\"0\" user=\"0\"/><hh:bold/><hh:underline type=\"NONE\" shape=\"SOLID\" color=\"#1F1F1F\"/><hh:strikeout shape=\"NONE\" color=\"#1F1F1F\"/><hh:outline type=\"NONE\"/><hh:shadow type=\"NONE\" color=\"#C0C0C0\" offsetX=\"10\" offsetY=\"10\"/></hh:charPr>"@
        + "<hh:charPr id=\"14\" height=\"1000\" textColor=\"#0563C1\" shadeColor=\"none\" useFontSpace=\"0\" useKerning=\"0\" symMark=\"NONE\" borderFillIDRef=\"2\"><hh:fontRef hangul=\"1\" latin=\"1\" hanja=\"1\" japanese=\"1\" other=\"1\" symbol=\"1\" user=\"1\"/><hh:ratio hangul=\"100\" latin=\"100\" hanja=\"100\" japanese=\"100\" other=\"100\" symbol=\"100\" user=\"100\"/><hh:spacing hangul=\"0\" latin=\"0\" hanja=\"0\" japanese=\"0\" other=\"0\" symbol=\"0\" user=\"0\"/><hh:relSz hangul=\"100\" latin=\"100\" hanja=\"100\" japanese=\"100\" other=\"100\" symbol=\"100\" user=\"100\"/><hh:offset hangul=\"0\" latin=\"0\" hanja=\"0\" japanese=\"0\" other=\"0\" symbol=\"0\" user=\"0\"/><hh:underline type=\"SOLID\" shape=\"SOLID\" color=\"#0563C1\"/><hh:strikeout shape=\"NONE\" color=\"#0563C1\"/><hh:outline type=\"NONE\"/><hh:shadow type=\"NONE\" color=\"#C0C0C0\" offsetX=\"10\" offsetY=\"10\"/></hh:charPr>"@
}

fn legacy_additional_char_properties() -> (s: String)
    ensures
        s@ == spec_legacy_char_prs(),
{
    let mut s = owned("<hh:charPr id=\"7\" height=\"1000\" textColor=\"#000000\" shadeColor=\"none\" useFontSpace=\"0\" useKerning=\"0\" symMark=\"NONE\" borderFillIDRef=\"2\"><hh:fontRef hangul=\"1\" latin=\"1\" hanja=\"1\" japanese=\"1\" other=\"1\" symbol=\"1\" user=\"1\"/><hh:ratio hangul=\"100\" latin=\"100\" hanja=\"100\" japanese=\"100\" other=\"100\" symbol=\"100\" user=\"100\"/><hh:spacing hangul=\"0\" latin=\"0\" hanja=\"0\" japanese=\"0\" other=\"0\" symbol=\"0\" user=\"0\"/><hh:relSz hangul=\"100\" latin=\"100\" hanja=\"100\" japanese=\"100\" other=\"100\" symbol=\"100\" user=\"100\"/><hh:offset hangul=\"0\" latin=\"0\" hanja=\"0\" japanese=\"0\" other=\"0\" symbol=\"0\" user=\"0\"/><hh:bold/><hh:underline type=\"NONE\" shape=\"SOLID\" color=\"#000000\"/><hh:strikeout shape=\"NONE\" color=\"#000000\"/><hh:outline type=\"NONE\"/><hh:shadow type=\"NONE\" color=\"#C0C0C0\" offsetX=\"10\" offsetY=\"10\"/></hh:charPr>");
    s.append("<hh:charPr id=\"8\" height=\"1000\" textColor=\"#000000\" shadeColor=\"none\" useFontSpace=\"0\" useKerning=\"0\" symMark=\"NONE\" borderFillIDRef=\"2\"><hh:fontRef hangul=\"1\" latin=\"1\" hanja=\"1\" japanese=\"1\" other=\"1\" symbol=\"1\" user=\"1\"/><hh:ratio hangul=\"100\" latin=\"100\" hanja=\"100\" japanese=\"100\" other=\"100\" symbol=\"100\" user=\"100\"/><hh:spacing hangul=\"0\" latin=\"0\" hanja=\"0\" japanese=\"0\" other=\"0\" symbol=\"0\" user=\"0\"/><hh:relSz hangul=\"100\" latin=\"100\" hanja=\"100\" japanese=\"100\" other=\"100\" symbol=\"100\" user=\"100\"/><hh:offset hangul=\"0\" latin=\"0\" hanja=\"0\" japanese=\"0\" other=\"0\" symbol=\"0\" user=\"0\"/><hh:italic/><hh:underline type=\"NONE\" shape=\"SOLID\" color=\"#000000\"/><hh:strikeout shape=\"NONE\" color=\"#000000\"/><hh:outline type=\"NONE\"/><hh:shadow type=\"NONE\" color=\"#C0C0C0\" offsetX=\"10\" offsetY=\"10\"/></hh:charPr>");
    s.append("<hh:charPr id=\"9\" height=\"1000\" textColor=\"#333333\" shadeColor=\"none\" useFontSpace=\"0\" useKerning=\"0\" symMark=\"NONE\" borderFillIDRef=\"2\"><hh:fontRef hangul=\"0\" latin=\"0\" hanja=\"0\" japanese=\"0\" other=\"0\" symbol=\"0\" user=\"0\"/><hh:ratio hangul=\"100\" latin=\"100\" hanja=\"100\" japanese=\"100\" other=\"100\" symbol=\"100\" user=\"100\"/><hh:spacing hangul=\"-5\" latin=\"-5\" hanja=\"-5\" japanese=\"-5\" other=\"-5\" symbol=\"-5\" user=\"-5\"/><hh:relSz hangul=\"100\" latin=\"100\" hanja=\"100\" japanese=\"100\" other=\"100\" symbol=\"100\" user=\"100\"/><hh:offset hangul=\"0\" latin=\"0\" hanja=\"0\" japanese=\"0\" other=\"0\" symbol=\"0\" user=\"0\"/><hh:underline type=\"NONE\" shape=\"SOLID\" color=\"#000000\"/><hh:strikeout shape=\"NONE\" color=\"#000000\"/><hh:outline type=\"NONE\"/><hh:shadow type=\"NONE\" color=\"#C0C0C0\" offsetX=\"10\" offsetY=\"10\"/></hh:charPr>");
    s.append("<hh:charPr id=\"10\" height=\"1400\" textColor=\"#2E74B5\" shadeColor=\"none\" useFontSpace=\"0\" useKerning=\"0\" symMark=\"NONE\" borderFillIDRef=\"2\"><hh:fontRef hangul=\"1\" latin=\"1\" hanja=\"1\" japanese=\"1\" other=\"1\" symbol=\"1\" user=\"1\"/><hh:ratio hangul=\"100\" latin=\"100\" hanja=\"100\" japanese=\"100\" other=\"100\" symbol=\"100\" user=\"100\"/><hh:spacing hangul=\"0\" latin=\"0\" hanja=\"0\" japanese=\"0\" other=\"0\" symbol=\"0\" user=\"0\"/><hh:relSz hangul=\"100\" latin=\"100\" hanja=\"100\" japanese=\"100\" other=\"100\" symbol=\"100\" user=\"100\"/><hh:offset hangul=\"0\" latin=\"0\" hanja=\"0\" japanese=\"0\" other=\"0\" symbol=\"0\" user=\"0\"/><hh:bold/><hh:underline type=\"NONE\" shape=\"SOLID\" color=\"#2E74B5\"/><hh:strikeout shape=\"NONE\" color=\"#2E74B5\"/><hh:outline type=\"NONE\"/><hh:shadow type=\"NONE\" color=\"#C0C0C0\" offsetX=\"10\" offsetY=\"10\"/></hh:charPr>");
    s.append("<hh:charPr id=\"11\" height=\"1300\" textColor=\"#1F1F1F\" shadeColor=\"none\" useFontSpace=\"0\" useKerning=\"0\" symMark=\"NONE\" borderFillIDRef=\"2\"><hh:fontRef hangul=\"1\" latin=\"1\" hanja=\"1\" japanese=\"1\" other=\"1\" symbol=\"1\" user=\"1\"/><hh:ratio hangul=\"100\" latin=\"100\" hanja=\"100\" japanese=\"100\" other=\"100\" symbol=\"100\" user=\"100\"/><hh:spacing hangul=\"0\" latin=\"0\" hanja=\"0\" japanese=\"0\" other=\"0\" symbol=\"0\" user=\"0\"/><hh:relSz hangul=\"100\" latin=\"100\" hanja=\"100\" japanese=\"100\" other=\"100\" symbol=\"100\" user=\"100\"/><hh:offset hangul=\"0\" latin=\"0\" hanja=\"0\" japanese=\"0\" other=\"0\" symbol=\"0\" user=\"0\"/><hh:bold/><hh:underline type=\"NONE\" shape=\"SOLID\" color=\"#1F1F1F\"/><hh:strikeout shape=\"NONE\" color=\"#1F1F1F\"/><hh:outline type=\"NONE\"/><hh:shadow type=\"NONE\" color=\"#C0C0C0\" offsetX=\"10\" offsetY=\"10\"/></hh:charPr>");
    s.append("<hh:charPr id=\"12\" height=\"1200\" textColor=\"#1F1F1F\" shadeColor=\"none\" useFontSpace=\"0\" useKerning=\"0\" symMark=\"NONE\" borderFillIDRef=\"2\"><hh:fontRef hangul=\"1\" latin=\"1\" hanja=\"1\" japanese=\"1\" other=\"1\" symbol=\"1\" user=\"1\"/><hh:ratio hangul=\"100\" latin=\"100\" hanja=\"100\" japanese=\"100\" other=\"100\" symbol=\"100\" user=\"100\"/><hh:spacing hangul=\"0\" latin=\"0\" hanja=\"0\" japanese=\"0\" other=\"0\" symbol=\"0\" user=\"0\"/><hh:relSz hangul=\"100\" latin=\"100\" hanja=\"100\" japanese=\"100\" other=\"100\" symbol=\"100\" user=\"100\"/><hh:offset hangul=\"0\" latin=\"0\" hanja=\"0\" japanese=\"0\" other=\"0\" symbol=\"0\" user=\"0\"/><hh:bold/><hh:underline type=\"NONE\" shape=\"SOLID\" color=\"#1F1F1F\"/><hh:strikeout shape=\"NONE\" color=\"#1F1F1F\"/><hh:outline type=\"NONE\"/><hh:shadow type=\"NONE\" color=\"#C0C0C0\" offsetX=\"10\" offsetY=\"10\"/></hh:charPr>");
    s.append("<hh:charPr id=\"13\" height=\"1100\" textColor=\"#1F1F1F\" shadeColor=\"none\" useFontSpace=\"0\" useKerning=\"0\" symMark=\"NONE\" borderFillIDRef=\"2\"><hh:fontRef hangul=\"1\" latin=\"1\" hanja=\"1\" japanese=\"1\" other=\"1\" symbol=\"1\" user=\"1\"/><hh:ratio hangul=\"100\" latin=\"100\" hanja=\"100\" japanese=\"100\" other=\"100\" symbol=\"100\" user=\"100\"/><hh:spacing hangul=\"0\" latin=\"0\" hanja=\"0\" japanese=\"0\" other=\"0\" symbol=\"0\" user=\"0\"/><hh:relSz hangul=\"100\" latin=\"100\" hanja=\"100\" japanese=\"100\" other=\"100\" symbol=\"100\" user=\"100\"/><hh:offset hangul=\"0\" latin=\"0\" hanja=\"0\" japanese=\"0\" other=\"0\" symbol=\"0\" user=\"0\"/><hh:bold/><hh:underline type=\"NONE\" shape=\"SOLID\" color=\"#1F1F1F\"/><hh:strikeout shape=\"NONE\" color=\"#1F1F1F\"/><hh:outline type=\"NONE\"/><hh:shadow type=\"NONE\" color=\"#C0C0C0\" offsetX=\"10\" offsetY=\"10\"/></hh:charPr>");
    s.append("<hh:charPr id=\"14\" height=\"1000\" textColor=\"#0563C1\" shadeColor=\"none\" useFontSpace=\"0\" useKerning=\"0\" symMark=\"NONE\" borderFillIDRef=\"2\"><hh:fontRef hangul=\"1\" latin=\"1\" hanja=\"1\" japanese=\"1\" other=\"1\" symbol=\"1\" user=\"1\"/><hh:ratio hangul=\"100\" latin=\"100\" hanja=\"100\" japanese=\"100\" other=\"100\" symbol=\"100\" user=\"100\"/><hh:spacing hangul=\"0\" latin=\"0\" hanja=\"0\" japanese=\"0\" other=\"0\" symbol=\"0\" user=\"0\"/><hh:relSz hangul=\"100\" latin=\"100\" hanja=\"100\" japanese=\"100\" other=\"100\" symbol=\"100\" user=\"100\"/><hh:offset hangul=\"0\" latin=\"0\" hanja=\"0\" japanese=\"0\" other=\"0\" symbol=\"0\" user=\"0\"/><hh:underline type=\"SOLID\" shape=\"SOLID\" color=\"#0563C1\"/><hh:strikeout shape=\"NONE\" color=\"#0563C1\"/><hh:outline type=\"NONE\"/><hh:shadow type=\"NONE\" color=\"#C0C0C0\" offsetX=\"10\" offsetY=\"10\"/></hh:charPr>");
    s
}

/// One character style: its id, height, font reference, weight, slant, underline
/// and letter spacing.
#[derive(Debug, Clone, Copy, PartialEq, Eq, Structural)]
pub struct CharPrSpec {
    pub id: u32,
    pub height: u32,
    pub font_ref: u32,
    pub bold: bool,
    pub italic: bool,
    pub underline: bool,
    pub spacing: i32,
}

/// The markup of a character style in a text colour.
pub open spec fn spec_char_pr_xml(c: CharPrSpec, color: Seq<char>) -> Seq<char> {
    "<hh:charPr id=\""@
        + decimal(c.id as nat)
        + "\" height=\""@
        + decimal(c.height as nat)
        + "\" textColor=\""@
        + spec_escape_attr(color)
        + "\" shadeColor=\"none\" useFontSpace=\"0\" useKerning=\"0\" symMark=\"NONE\" borderFillIDRef=\"2\"><hh:fontRef hangul=\""@
        + decimal(c.font_ref as nat)
        + "\" latin=\""@
        + decimal(c.font_ref as nat)
        + "\" hanja=\""@
        + decimal(c.font_ref as nat)
        + "\" japanese=\""@
        + decimal(c.font_ref as nat)
        + "\" other=\""@
        + decimal(c.font_ref as nat)
        + "\" symbol=\""@
        + decimal(c.font_ref as nat)
        + "\" user=\""@
        + decimal(c.font_ref as nat)
        + "\"/><hh:ratio hangul=\"100\" latin=\"100\" hanja=\"100\" japanese=\"100\" other=\"100\" symbol=\"100\" user=\"100\"/><hh:spacing hangul=\""@
        + signed_decimal(c.spacing as int)
        + "\" latin=\""@
        + signed_decimal(c.spacing as int)
        + "\" hanja=\""@
        + signed_decimal(c.spacing as int)
        + "\" japanese=\""@
        + signed_decimal(c.spacing as int)
        + "\" other=\""@
        + signed_decimal(c.spacing as int)
        + "\" symbol=\""@
        + signed_decimal(c.spacing as int)
        + "\" user=\""@
        + signed_decimal(c.spacing as int)
        + "\"/><hh:relSz hangul=\"100\" latin=\"100\" hanja=\"100\" japanese=\"100\" other=\"100\" symbol=\"100\" user=\"100\"/><hh:offset hangul=\"0\" latin=\"0\" hanja=\"0\" japanese=\"0\" other=\"0\" symbol=\"0\" user=\"0\"/>"@
        + (if c.bold { "<hh:bold/>"@ } else { seq![] })
        + (if c.italic { "<hh:italic/>"@ } else { seq![] })
        + "<hh:underline type=\""@
        + (if c.underline { "SOLID"@ } else { "NONE"@ })
        + "\" shape=\"SOLID\" color=\""@
        + spec_escape_attr(color)
        + "\"/><hh:strikeout shape=\"NONE\" color=\""@
        + spec_escape_attr(color)
        + "\"/><hh:outline type=\"NONE\"/><hh:shadow type=\"NONE\" color=\"#C0C0C0\" offsetX=\"10\" offsetY=\"10\"/></hh:charPr>"@
}

fn char_property_xml(c: CharPrSpec, text_color: &str) -> (s: String)
    ensures
        s@ == spec_char_pr_xml(c, text_color@),
{
    let escaped = escape_attr(text_color);
    let spacing = signed_decimal_string(c.spacing as i64);
    let mut s = owned("<hh:charPr id=\"");
    append_decimal(&mut s, c.id as u64);
    s.append("\" height=\"");
    append_decimal(&mut s, c.height as u64);
    s.append("\" textColor=\"");
    s.append(escaped.as_str());
    s.append("\" shadeColor=\"none\" useFontSpace=\"0\" useKerning=\"0\" symMark=\"NONE\" borderFillIDRef=\"2\"><hh:fontRef hangul=\"");
    append_decimal(&mut s, c.font_ref as u64);
    s.append("\" latin=\"");
    append_decimal(&mut s, c.font_ref as u64);
    s.append("\" hanja=\"");
    append_decimal(&mut s, c.font_ref as u64);
    s.append("\" japanese=\"");
    append_decimal(&mut s, c.font_ref as u64);
    s.append("\" other=\"");
    append_decimal(&mut s, c.font_ref as u64);
    s.append("\" symbol=\"");
    append_decimal(&mut s, c.font_ref as u64);
    s.append("\" user=\"");
    append_decimal(&mut s, c.font_ref as u64);
    s.append("\"/><hh:ratio hangul=\"100\" latin=\"100\" hanja=\"100\" japanese=\"100\" other=\"100\" symbol=\"100\" user=\"100\"/><hh:spacing hangul=\"");
    s.append(spacing.as_str());
    s.append("\" latin=\"");
    s.append(spacing.as_str());
    s.append("\" hanja=\"");
    s.append(spacing.as_str());
    s.append("\" japanese=\"");
    s.append(spacing.as_str());
    s.append("\" other=\"");
    s.append(spacing.as_str());
    s.append("\" symbol=\"");
    s.append(spacing.as_str());
    s.append("\" user=\"");
    s.append(spacing.as_str());
    s.append("\"/><hh:relSz hangul=\"100\" latin=\"100\" hanja=\"100\" japanese=\"100\" other=\"100\" symbol=\"100\" user=\"100\"/><hh:offset hangul=\"0\" latin=\"0\" hanja=\"0\" japanese=\"0\" other=\"0\" symbol=\"0\" user=\"0\"/>");
    append_if(&mut s, c.bold, "<hh:bold/>");
    append_if(&mut s, c.italic, "<hh:italic/>");
    s.append("<hh:underline type=\"");
    s.append(if c.underline { "SOLID" } else { "NONE" });
    s.append("\" shape=\"SOLID\" color=\"");
    s.append(escaped.as_str());
    s.append("\"/><hh:strikeout shape=\"NONE\" color=\"");
    s.append(escaped.as_str());
    s.append("\"/><hh:outline type=\"NONE\"/><hh:shadow type=\"NONE\" color=\"#C0C0C0\" offsetX=\"10\" offsetY=\"10\"/></hh:charPr>");
    s
}

/// The numbering of ordered lists with an id and a start.
pub open spec fn spec_numbering(id: u32, start: u32) -> Seq<char> {
    "<hh:numbering id=\""@
        + decimal(id as nat)
        + "\" start=\""@
        + decimal(start as nat)
        + "\"><hh:paraHead start=\"1\" level=\"1\" align=\"LEFT\" useInstWidth=\"1\" autoIndent=\"1\" widthAdjust=\"0\" textOffsetType=\"PERCENT\" textOffset=\"50\" numFormat=\"DIGIT\" charPrIDRef=\"4294967295\" checkable=\"0\">^1.</hh:paraHead>"@
        + "<hh:paraHead start=\"1\" level=\"2\" align=\"LEFT\" useInstWidth=\"1\" autoIndent=\"1\" widthAdjust=\"0\" textOffsetType=\"PERCENT\" textOffset=\"50\" numFormat=\"HANGUL_SYLLABLE\" charPrIDRef=\"4294967295\" checkable=\"0\">^2.</hh:paraHead>"@
        + "<hh:paraHead start=\"1\" level=\"3\" align=\"LEFT\" useInstWidth=\"1\" autoIndent=\"1\" widthAdjust=\"0\" textOffsetType=\"PERCENT\" textOffset=\"50\" numFormat=\"DIGIT\" charPrIDRef=\"4294967295\" checkable=\"0\">^3)</hh:paraHead>"@
        + "<hh:paraHead start=\"1\" level=\"4\" align=\"LEFT\" useInstWidth=\"1\" autoIndent=\"1\" widthAdjust=\"0\" textOffsetType=\"PERCENT\" textOffset=\"50\" numFormat=\"HANGUL_SYLLABLE\" charPrIDRef=\"4294967295\" checkable=\"0\">^4)</hh:paraHead>"@
        + "<hh:paraHead start=\"1\" level=\"5\" align=\"LEFT\" useInstWidth=\"1\" autoIndent=\"1\" widthAdjust=\"0\" textOffsetType=\"PERCENT\" textOffset=\"50\" numFormat=\"DIGIT\" charPrIDRef=\"4294967295\" checkable=\"0\">(^5)</hh:paraHead>"@
        + "<hh:paraHead start=\"1\" level=\"6\" align=\"LEFT\" useInstWidth=\"1\" autoIndent=\"1\" widthAdjust=\"0\" textOffsetType=\"PERCENT\" textOffset=\"50\" numFormat=\"HANGUL_SYLLABLE\" charPrIDRef=\"4294967295\" checkable=\"0\">(^6)</hh:paraHead>"@
        + "<hh:paraHead start=\"1\" level=\"7\" align=\"LEFT\" useInstWidth=\"1\" autoIndent=\"1\" widthAdjust=\"0\" textOffsetType=\"PERCENT\" textOffset=\"50\" numFormat=\"CIRCLED_DIGIT\" charPrIDRef=\"4294967295\" checkable=\"1\">^7</hh:paraHead>"@
        + "<hh:paraHead start=\"1\" level=\"8\" align=\"LEFT\" useInstWidth=\"1\" autoIndent=\"1\" widthAdjust=\"0\" textOffsetType=\"PERCENT\" textOffset=\"50\" numFormat=\"CIRCLED_HANGUL_SYLLABLE\" charPrIDRef=\"4294967295\" checkable=\"1\">^8</hh:paraHead>"@
        + "<hh:paraHead start=\"1\" level=\"9\" align=\"LEFT\" useInstWidth=\"1\" autoIndent=\"1\" widthAdjust=\"0\" textOffsetType=\"PERCENT\" textOffset=\"50\" numFormat=\"DIGIT\" charPrIDRef=\"4294967295\" checkable=\"0\"/>"@
        + "<hh:paraHead start=\"1\" level=\"10\" align=\"LEFT\" useInstWidth=\"1\" autoIndent=\"1\" widthAdjust=\"0\" textOffsetType=\"PERCENT\" textOffset=\"50\" numFormat=\"DIGIT\" charPrIDRef=\"4294967295\" checkable=\"0\"/>"@
        + "</hh:numbering>"@
}

fn ordered_numbering_xml(id: u32, start: u32) -> (s: String)
    ensures
        s@ == spec_numbering(id, start),
{
    let mut s = owned("<hh:numbering id=\"");
    append_decimal(&mut s, id as u64);
    s.append("\" start=\"");
    append_decimal(&mut s, start as u64);
    s.append("\"><hh:paraHead start=\"1\" level=\"1\" align=\"LEFT\" useInstWidth=\"1\" autoIndent=\"1\" widthAdjust=\"0\" textOffsetType=\"PERCENT\" textOffset=\"50\" numFormat=\"DIGIT\" charPrIDRef=\"4294967295\" checkable=\"0\">^1.</hh:paraHead>");
    s.append("<hh:paraHead start=\"1\" level=\"2\" align=\"LEFT\" useInstWidth=\"1\" autoIndent=\"1\" widthAdjust=\"0\" textOffsetType=\"PERCENT\" textOffset=\"50\" numFormat=\"HANGUL_SYLLABLE\" charPrIDRef=\"4294967295\" checkable=\"0\">^2.</hh:paraHead>");
    s.append("<hh:paraHead start=\"1\" level=\"3\" align=\"LEFT\" useInstWidth=\"1\" autoIndent=\"1\" widthAdjust=\"0\" textOffsetType=\"PERCENT\" textOffset=\"50\" numFormat=\"DIGIT\" charPrIDRef=\"4294967295\" checkable=\"0\">^3)</hh:paraHead>");
    s.append("<hh:paraHead start=\"1\" level=\"4\" align=\"LEFT\" useInstWidth=\"1\" autoIndent=\"1\" widthAdjust=\"0\" textOffsetType=\"PERCENT\" textOffset=\"50\" numFormat=\"HANGUL_SYLLABLE\" charPrIDRef=\"4294967295\" checkable=\"0\">^4)</hh:paraHead>");
    s.append("<hh:paraHead start=\"1\" level=\"5\" align=\"LEFT\" useInstWidth=\"1\" autoIndent=\"1\" widthAdjust=\"0\" textOffsetType=\"PERCENT\" textOffset=\"50\" numFormat=\"DIGIT\" charPrIDRef=\"4294967295\" checkable=\"0\">(^5)</hh:paraHead>");
    s.append("<hh:paraHead start=\"1\" level=\"6\" align=\"LEFT\" useInstWidth=\"1\" autoIndent=\"1\" widthAdjust=\"0\" textOffsetType=\"PERCENT\" textOffset=\"50\" numFormat=\"HANGUL_SYLLABLE\" charPrIDRef=\"4294967295\" checkable=\"0\">(^6)</hh:paraHead>");
    s.append("<hh:paraHead start=\"1\" level=\"7\" align=\"LEFT\" useInstWidth=\"1\" autoIndent=\"1\" widthAdjust=\"0\" textOffsetType=\"PERCENT\" textOffset=\"50\" numFormat=\"CIRCLED_DIGIT\" charPrIDRef=\"4294967295\" checkable=\"1\">^7</hh:paraHead>");
    s.append("<hh:paraHead start=\"1\" level=\"8\" align=\"LEFT\" useInstWidth=\"1\" autoIndent=\"1\" widthAdjust=\"0\" textOffsetType=\"PERCENT\" textOffset=\"50\" numFormat=\"CIRCLED_HANGUL_SYLLABLE\" charPrIDRef=\"4294967295\" checkable=\"1\">^8</hh:paraHead>");
    s.append("<hh:paraHead start=\"1\" level=\"9\" align=\"LEFT\" useInstWidth=\"1\" autoIndent=\"1\" widthAdjust=\"0\" textOffsetType=\"PERCENT\" textOffset=\"50\" numFormat=\"DIGIT\" charPrIDRef=\"4294967295\" checkable=\"0\"/>");
    s.append("<hh:paraHead start=\"1\" level=\"10\" align=\"LEFT\" useInstWidth=\"1\" autoIndent=\"1\" widthAdjust=\"0\" textOffsetType=\"PERCENT\" textOffset=\"50\" numFormat=\"DIGIT\" charPrIDRef=\"4294967295\" checkable=\"0\"/>");
    s.append("</hh:numbering>");
    s
}

/// The paragraph properties of ordered list paragraphs: their id, numbering and
/// left margin (doubled where the document has no unit for characters).
pub open spec fn spec_para_pr(id: u32, numbering_id_ref: u32, left_margin: u32) -> Seq<char> {
    "<hh:paraPr id=\""@
        + decimal(id as nat)
        + "\" tabPrIDRef=\"2\" condense=\"0\" fontLineHeight=\"0\" snapToGrid=\"1\" suppressLineNumbers=\"0\" checked=\"0\"><hh:align horizontal=\"LEFT\" vertical=\"BASELINE\"/><hh:heading type=\"NUMBER\" idRef=\""@
        + decimal(numbering_id_ref as nat)
        + "\" level=\"0\"/><hh:breakSetting breakLatinWord=\"KEEP_WORD\" breakNonLatinWord=\"BREAK_WORD\" widowOrphan=\"0\" keepWithNext=\"0\" keepLines=\"0\" pageBreakBefore=\"0\" lineWrap=\"BREAK\"/><hh:autoSpacing eAsianEng=\"0\" eAsianNum=\"0\"/>"@
        + "<hp:switch><hp:case hp:required-namespace=\"http://www.hancom.co.kr/hwpml/2016/HwpUnitChar\"><hh:margin><hc:intent value=\"0\" unit=\"HWPUNIT\"/><hc:left value=\""@
        + decimal(left_margin as nat)
        + "\" unit=\"HWPUNIT\"/><hc:right value=\"0\" unit=\"HWPUNIT\"/><hc:prev value=\"0\" unit=\"HWPUNIT\"/><hc:next value=\"700\" unit=\"HWPUNIT\"/></hh:margin><hh:lineSpacing type=\"PERCENT\" value=\"160\" unit=\"HWPUNIT\"/></hp:case><hp:default><hh:margin><hc:intent value=\"0\" unit=\"HWPUNIT\"/><hc:left value=\""@
        + decimal((2 * left_margin) as nat)
        + "\" unit=\"HWPUNIT\"/><hc:right value=\"0\" unit=\"HWPUNIT\"/><hc:prev value=\"0\" unit=\"HWPUNIT\"/><hc:next value=\"1400\" unit=\"HWPUNIT\"/></hh:margin><hh:lineSpacing type=\"PERCENT\" value=\"160\" unit=\"HWPUNIT\"/></hp:default></hp:switch>"@
        + "<hh:border borderFillIDRef=\"2\" offsetLeft=\"0\" offsetRight=\"0\" offsetTop=\"0\" offsetBottom=\"0\" connect=\"0\" ignoreMargin=\"0\"/></hh:paraPr>"@
}

fn ordered_para_pr_xml(id: u32, numbering_id_ref: u32, left_margin: u32) -> (s: String)
    requires
        left_margin <= 2147483647,
    ensures
        s@ == spec_para_pr(id, numbering_id_ref, left_margin),
{
    let mut s = owned("<hh:paraPr id=\"");
    append_decimal(&mut s, id as u64);
    s.append("\" tabPrIDRef=\"2\" condense=\"0\" fontLineHeight=\"0\" snapToGrid=\"1\" suppressLineNumbers=\"0\" checked=\"0\"><hh:align horizontal=\"LEFT\" vertical=\"BASELINE\"/><hh:heading type=\"NUMBER\" idRef=\"");
    append_decimal(&mut s, numbering_id_ref as u64);
    s.append("\" level=\"0\"/><hh:breakSetting breakLatinWord=\"KEEP_WORD\" breakNonLatinWord=\"BREAK_WORD\" widowOrphan=\"0\" keepWithNext=\"0\" keepLines=\"0\" pageBreakBefore=\"0\" lineWrap=\"BREAK\"/><hh:autoSpacing eAsianEng=\"0\" eAsianNum=\"0\"/>");
    s.append("<hp:switch><hp:case hp:required-namespace=\"http://www.hancom.co.kr/hwpml/2016/HwpUnitChar\"><hh:margin><hc:intent value=\"0\" unit=\"HWPUNIT\"/><hc:left value=\"");
    append_decimal(&mut s, left_margin as u64);
    s.append("\" unit=\"HWPUNIT\"/><hc:right value=\"0\" unit=\"HWPUNIT\"/><hc:prev value=\"0\" unit=\"HWPUNIT\"/><hc:next value=\"700\" unit=\"HWPUNIT\"/></hh:margin><hh:lineSpacing type=\"PERCENT\" value=\"160\" unit=\"HWPUNIT\"/></hp:case><hp:default><hh:margin><hc:intent value=\"0\" unit=\"HWPUNIT\"/><hc:left value=\"");
    append_decimal(&mut s, 2 * (left_margin as u64));
    s.append("\" unit=\"HWPUNIT\"/><hc:right value=\"0\" unit=\"HWPUNIT\"/><hc:prev value=\"0\" unit=\"HWPUNIT\"/><hc:next value=\"1400\" unit=\"HWPUNIT\"/></hh:margin><hh:lineSpacing type=\"PERCENT\" value=\"160\" unit=\"HWPUNIT\"/></hp:default></hp:switch>");
    s.append("<hh:border borderFillIDRef=\"2\" offsetLeft=\"0\" offsetRight=\"0\" offsetTop=\"0\" offsetBottom=\"0\" connect=\"0\" ignoreMargin=\"0\"/></hh:paraPr>");
    s
}

pub open spec fn char_pr(id: u32, height: u32, font_ref: u32, bold: bool, italic: bool, underline: bool, spacing: i32) -> CharPrSpec {
    CharPrSpec { id, height, font_ref, bold, italic, underline, spacing }
}

/// The character styles of a resolved style, each with its colour: body text,
/// strong, emphasis, code, the four heading levels and links.
pub open spec fn spec_body_char_prs(st: ResolvedStyleV) -> Seq<(CharPrSpec, Seq<char>)> {
    seq![
        (char_pr(6, st.body_font_size, 0, false, false, false, 0), st.text_color),
        (char_pr(7, st.body_font_size, 0, true, false, false, 0), st.text_color),
        (char_pr(8, st.body_font_size, 0, false, true, false, 0), st.text_color),
        (char_pr(9, st.body_font_size, 0, false, false, false, -5i32), "#333333"@),
        (char_pr(10, st.heading_sizes[0], 1, true, false, false, 0), st.heading_colors[0]),
        (char_pr(11, st.heading_sizes[1], 1, true, false, false, 0), st.heading_colors[1]),
        (char_pr(12, st.heading_sizes[2], 1, true, false, false, 0), st.heading_colors[2]),
        (char_pr(13, st.heading_sizes[3], 1, true, false, false, 0), st.heading_colors[3]),
        (char_pr(14, st.body_font_size, 0, false, false, true, 0), st.link_color),
    ]
}

fn body_char_pr<'a>(style: &'a ResolvedHwpxStyle, k: usize) -> (r: (CharPrSpec, &'a str))
    requires
        k < 9,
    ensures
        (r.0, r.1@) == spec_body_char_prs(style@)[k as int],
{
    let size = style.body_font_size;
    let plain = CharPrSpec { id: 6, height: size, font_ref: 0, bold: false, italic: false, underline: false, spacing: 0 };
    if k == 0 {
        (plain, style.text_color.as_str())
    } else if k == 1 {
        (CharPrSpec { id: 7, bold: true, ..plain }, style.text_color.as_str())
    } else if k == 2 {
        (CharPrSpec { id: 8, italic: true, ..plain }, style.text_color.as_str())
    } else if k == 3 {
        (CharPrSpec { id: 9, spacing: -5, ..plain }, "#333333")
    } else if k < 8 {
        let level = k - 4;
        let c = CharPrSpec { id: (10 + level) as u32, height: style.heading_sizes[level], font_ref: 1, bold: true, ..plain };
        (c, style.heading_colors[level].as_str())
    } else {
        (CharPrSpec { id: 14, underline: true, ..plain }, style.link_color.as_str())
    }
}

/// Where the element that opens with `start_tag` ends: at the end of the first
/// `end_tag` after that opening.
pub open spec fn segment_bounds(xml: Seq<char>, start_tag: Seq<char>, end_tag: Seq<char>) -> Option<(int, int)> {
    match spec_find_at(xml, start_tag, 0) {
        Some(a) => match spec_find_at(xml, end_tag, a) {
            Some(e) => Some((a, e + end_tag.len())),
            None => None,
        },
        None => None,
    }
}

fn find_segment(cs: &Vec<char>, start_tag: &str, end_tag: &str) -> (r: Option<(usize, usize)>)
    ensures
        match r {
            Some((a, b)) => segment_bounds(cs@, start_tag@, end_tag@) == Some((a as int, b as int)) && a <= b <= cs@.len(),
            None => segment_bounds(cs@, start_tag@, end_tag@) is None,
        },
{
    let st = chars_of(start_tag);
    let et = chars_of(end_tag);
    proof { lemma_find_at(cs@, start_tag@, 0); }
    match find_at(cs, &st, 0) {
        None => None,
        Some(a) => {
            proof { lemma_find_at(cs@, end_tag@, a as int); }
            match find_at(cs, &et, a) {
                None => None,
                Some(e) => {
                    let n = cs.len();
                    assert(e + et@.len() <= n);
                    Some((a, e + et.len()))
                },
            }
        },
    }
}

fn splice(cs: &Vec<char>, a: usize, b: usize, mid: &str) -> (s: String)
    requires
        a <= b <= cs@.len(),
    ensures
        s@ == cs@.take(a as int) + mid@ + cs@.skip(b as int),
{
    let mut s = substring(cs, 0, a);
    s.append(mid);
    let rest = substring(cs, b, cs.len());
    s.append(rest.as_str());
    assert(cs@.subrange(0, a as int) =~= cs@.take(a as int));
    assert(cs@.subrange(b as int, cs@.len() as int) =~= cs@.skip(b as int));
    s
}

/// The opening of a character style's element.
pub open spec fn char_pr_start_tag(id: u32) -> Seq<char> {
    "<hh:charPr id=\""@ + decimal(id as nat) + "\""@
}

/// The header with the element of a character style replaced by its markup for
/// the given colour; unchanged where the element is missing.
pub open spec fn spec_update_char_pr(xml: Seq<char>, entry: (CharPrSpec, Seq<char>)) -> Seq<char> {
    match segment_bounds(xml, char_pr_start_tag(entry.0.id), "</hh:charPr>"@) {
        Some((a, b)) => xml.take(a) + spec_char_pr_xml(entry.0, entry.1) + xml.skip(b),
        None => xml,
    }
}

fn update_char_pr(xml: &str, c: CharPrSpec, text_color: &str) -> (s: String)
    ensures
        s@ == spec_update_char_pr(xml@, (c, text_color@)),
{
    let replacement = char_property_xml(c, text_color);
    let cs = chars_of(xml);
    let mut tag = owned("<hh:charPr id=\"");
    append_decimal(&mut tag, c.id as u64);
    tag.append("\"");
    match find_segment(&cs, tag.as_str(), "</hh:charPr>") {
        Some((a, b)) => splice(&cs, a, b, replacement.as_str()),
        None => owned(xml),
    }
}

/// The character styles applied in turn.
pub open spec fn spec_apply_char_prs(xml: Seq<char>, es: Seq<(CharPrSpec, Seq<char>)>) -> Seq<char>
    decreases es.len(),
{
    if es.len() == 0 {
        xml
    } else {
        spec_update_char_pr(spec_apply_char_prs(xml, es.drop_last()), es.last())
    }
}

fn apply_body_style(header: &str, style: &ResolvedHwpxStyle) -> (s: String)
    ensures
        s@ == spec_apply_char_prs(header@, spec_body_char_prs(style@)),
{
    let ghost es = spec_body_char_prs(style@);
    let mut updated = owned(header);
    let mut k: usize = 0;
    while k < 9
        invariant
            k <= 9,
            es == spec_body_char_prs(style@),
            updated@ == spec_apply_char_prs(header@, es.take(k as int)),
        decreases 9 - k,
    {
        assert(es.take(k + 1).drop_last() == es.take(k as int));
        let (c, color) = body_char_pr(style, k);
        updated = update_char_pr(updated.as_str(), c, color);
        k += 1;
    }
    assert(es.take(9) == es);
    updated
}

/// The markup of character styles, run together.
pub open spec fn spec_char_prs_xml(es: Seq<(CharPrSpec, Seq<char>)>) -> Seq<char>
    decreases es.len(),
{
    if es.len() == 0 {
        seq![]
    } else {
        spec_char_prs_xml(es.drop_last()) + spec_char_pr_xml(es.last().0, es.last().1)
    }
}

/// The character styles that a header with a custom style gains: all of the
/// style's but the body text.
pub open spec fn spec_additional_char_prs(st: ResolvedStyleV) -> Seq<char> {
    spec_char_prs_xml(spec_body_char_prs(st).skip(1))
}

fn additional_char_properties(style: &ResolvedHwpxStyle) -> (s: String)
    ensures
        s@ == spec_additional_char_prs(style@),
{
    let ghost es = spec_body_char_prs(style@).skip(1);
    let mut s = String::new();
    let mut k: usize = 1;
    while k < 9
        invariant
            1 <= k <= 9,
            es == spec_body_char_prs(style@).skip(1),
            s@ == spec_char_prs_xml(es.take(k - 1)),
        decreases 9 - k,
    {
        assert(es.take(k as int).drop_last() == es.take(k - 1));
        assert(es.take(k as int).last() == spec_body_char_prs(style@)[k as int]);
        let (c, color) = body_char_pr(style, k);
        let xml = char_property_xml(c, color);
        s.append(xml.as_str());
        k += 1;
    }
    assert(es.take(8) == es);
    s
}

/// The face names of the body and heading fonts in the template.
pub open spec fn template_body_face() -> Seq<char> {
    "face=\"\u{D568}\u{CD08}\u{B86C}\u{BC14}\u{D0D5}\""@
}

pub open spec fn template_heading_face() -> Seq<char> {
    "face=\"\u{D568}\u{CD08}\u{B86C}\u{B3CB}\u{C6C0}\""@
}

/// The template's font faces replaced by the style's body and heading fonts.
pub open spec fn spec_font_faces(h: Seq<char>, st: ResolvedStyleV) -> Seq<char> {
    spec_replace(
        spec_replace(h, template_body_face(), "face=\""@ + spec_escape_attr(st.body_font) + "\""@),
        template_heading_face(),
        "face=\""@ + spec_escape_attr(st.heading_font) + "\""@,
    )
}

fn apply_font_faces(header: &str, style: &ResolvedHwpxStyle) -> (s: String)
    ensures
        s@ == spec_font_faces(header@, style@),
{
    let mut body = owned("face=\"");
    let body_font = escape_attr(style.body_font.as_str());
    body.append(body_font.as_str());
    body.append("\"");
    let mut heading = owned("face=\"");
    let heading_font = escape_attr(style.heading_font.as_str());
    heading.append(heading_font.as_str());
    heading.append("\"");
    let first = replace_all(header, "face=\"\u{D568}\u{CD08}\u{B86C}\u{BC14}\u{D0D5}\"", body.as_str());
    replace_all(first.as_str(), "face=\"\u{D568}\u{CD08}\u{B86C}\u{B3CB}\u{C6C0}\"", heading.as_str())
}

/// The opening of a paragraph style's element.
pub open spec fn para_pr_start_tag(id: u32) -> Seq<char> {
    "<hh:paraPr id=\""@ + decimal(id as nat) + "\""@
}

/// The header with justified alignment in one paragraph style replaced by an
/// alignment; unchanged where the element is missing.
pub open spec fn spec_update_para_align(xml: Seq<char>, id: u32, align: Seq<char>) -> Seq<char> {
    match segment_bounds(xml, para_pr_start_tag(id), "</hh:paraPr>"@) {
        Some((a, b)) => xml.take(a)
            + spec_replace(xml.subrange(a, b), "<hh:align horizontal=\"JUSTIFY\""@, "<hh:align horizontal=\""@ + align + "\""@)
            + xml.skip(b),
        None => xml,
    }
}

fn update_para_align(xml: &str, id: u32, align: &str) -> (s: String)
    ensures
        s@ == spec_update_para_align(xml@, id, align@),
{
    let cs = chars_of(xml);
    let mut tag = owned("<hh:paraPr id=\"");
    append_decimal(&mut tag, id as u64);
    tag.append("\"");
    match find_segment(&cs, tag.as_str(), "</hh:paraPr>") {
        Some((a, b)) => {
            let segment = substring(&cs, a, b);
            let mut target = owned("<hh:align horizontal=\"");
            target.append(align);
            target.append("\"");
            let replaced = replace_all(segment.as_str(), "<hh:align horizontal=\"JUSTIFY\"", target.as_str());
            splice(&cs, a, b, replaced.as_str())
        },
        None => owned(xml),
    }
}

/// The paragraph styles whose alignment follows the document's.
pub open spec fn aligned_para_ids() -> Seq<u32> {
    seq![0u32, 2, 3, 4, 5, 6, 7]
}

/// The alignment applied to paragraph styles in turn.
pub open spec fn spec_align_all(xml: Seq<char>, ids: Seq<u32>, align: Seq<char>) -> Seq<char>
    decreases ids.len(),
{
    if ids.len() == 0 {
        xml
    } else {
        spec_update_para_align(spec_align_all(xml, ids.drop_last(), align), ids.last(), align)
    }
}

fn apply_paragraph_alignment(header: &str, style: &ResolvedHwpxStyle) -> (s: String)
    ensures
        s@ == spec_align_all(header@, aligned_para_ids(), style@.paragraph_align),
{
    let ids: [u32; 7] = [0, 2, 3, 4, 5, 6, 7];
    assert(ids@ =~= aligned_para_ids());
    let mut updated = owned(header);
    let mut k: usize = 0;
    while k < 7
        invariant
            k <= 7,
            ids@ == aligned_para_ids(),
            updated@ == spec_align_all(header@, ids@.take(k as int), style@.paragraph_align),
        decreases 7 - k,
    {
        assert(ids@.take(k + 1).drop_last() == ids@.take(k as int));
        updated = update_para_align(updated.as_str(), ids[k], style.paragraph_align);
        k += 1;
    }
    assert(ids@.take(7) == ids@);
    updated
}

/// The header with a table border fill added where tables need one and the header
/// has none.
pub open spec fn spec_add_table_border_fill(h: Seq<char>, needs: bool) -> Seq<char> {
    if !needs || spec_contains(h, "<hh:borderFill id=\"3\""@) {
        h
    } else {
        spec_replace(
            spec_replace(h, "<hh:borderFills itemCnt=\"2\">"@, "<hh:borderFills itemCnt=\"3\">"@),
            "</hh:borderFills>"@,
            spec_table_border_fill() + "</hh:borderFills>"@,
        )
    }
}

fn maybe_add_table_border_fill(header: String, needs_table_border_fill: bool) -> (s: String)
    ensures
        s@ == spec_add_table_border_fill(header@, needs_table_border_fill),
{
    if !needs_table_border_fill || contains(header.as_str(), "<hh:borderFill id=\"3\"") {
        return header;
    }
    let counted = replace_all(header.as_str(), "<hh:borderFills itemCnt=\"2\">", "<hh:borderFills itemCnt=\"3\">");
    let mut fill = table_border_fill_xml();
    fill.append("</hh:borderFills>");
    replace_all(counted.as_str(), "</hh:borderFills>", fill.as_str())
}

/// The list numbering that a document's lists call for.
#[derive(Debug, Clone, Copy, PartialEq, Eq, Structural)]
pub enum ListContract {
    NoList,
    Unordered(u8),
    OrderedSingleLevel,
    OrderedNestedDepth2,
}

/// The header with the bullet and paragraph styles of unordered lists, one level
/// or two; unchanged where it has them already.
pub open spec fn spec_add_unordered(h: Seq<char>, depth: u8) -> Seq<char> {
    if spec_contains(h, "<hh:paraPr id=\"19\""@) {
        h
    } else {
        let count: nat = if depth > 1 { 21 } else { 20 };
        let paras = if depth > 1 { spec_list_level1() + spec_list_level2() } else { spec_list_level1() };
        spec_replace_first(
            spec_replace_first(
                spec_replace_first(h, "</hh:numberings>"@, "</hh:numberings>"@ + spec_list_bullets()),
                "<hh:paraProperties itemCnt=\"19\">"@,
                "<hh:paraProperties itemCnt=\""@ + decimal(count) + "\">"@,
            ),
            "</hh:paraProperties>"@,
            paras + "</hh:paraProperties>"@,
        )
    }
}

fn maybe_add_unordered_list_contract(header: String, list_depth: u8) -> (s: String)
    ensures
        s@ == spec_add_unordered(header@, list_depth),
{
    if contains(header.as_str(), "<hh:paraPr id=\"19\"") {
        return header;
    }
    let new_count: u64 = if list_depth > 1 { 21 } else { 20 };
    let mut paras = list_level1_xml();
    if list_depth > 1 {
        let second = list_level2_xml();
        paras.append(second.as_str());
    }
    paras.append("</hh:paraProperties>");
    let mut bullets = owned("</hh:numberings>");
    let bullet_xml = list_bullets_xml();
    bullets.append(bullet_xml.as_str());
    let mut count = owned("<hh:paraProperties itemCnt=\"");
    append_decimal(&mut count, new_count);
    count.append("\">");
    let a = replace_first(header.as_str(), "</hh:numberings>", bullets.as_str());
    let b = replace_first(a.as_str(), "<hh:paraProperties itemCnt=\"19\">", count.as_str());
    replace_first(b.as_str(), "</hh:paraProperties>", paras.as_str())
}

/// The header with the numberings and paragraph styles of ordered lists, one level
/// or nested two deep; unchanged where it has numbered paragraphs already.
pub open spec fn spec_add_ordered(h: Seq<char>, nested: bool) -> Seq<char> {
    if spec_contains(h, "<hh:heading type=\"NUMBER\""@) {
        h
    } else {
        let numberings = if nested { spec_numbering(2, 1) + spec_numbering(3, 0) } else { spec_numbering(2, 0) };
        let paras = if nested { spec_para_pr(19, 2, 2200) + spec_para_pr(20, 3, 1100) } else { spec_para_pr(19, 2, 1100) };
        let nc: nat = if nested { 3 } else { 2 };
        let pc: nat = if nested { 21 } else { 20 };
        spec_replace_first(
            spec_replace_first(
                spec_replace_first(
                    spec_replace_first(h, "<hh:numberings itemCnt=\"1\">"@, "<hh:numberings itemCnt=\""@ + decimal(nc) + "\">"@),
                    "</hh:numberings>"@,
                    numberings + "</hh:numberings>"@,
                ),
                "<hh:paraProperties itemCnt=\"19\">"@,
                "<hh:paraProperties itemCnt=\""@ + decimal(pc) + "\">"@,
            ),
            "</hh:paraProperties>"@,
            paras + "</hh:paraProperties>"@,
        )
    }
}

fn maybe_add_ordered_list_contract(header: String, nested: bool) -> (s: String)
    ensures
        s@ == spec_add_ordered(header@, nested),
{
    if contains(header.as_str(), "<hh:heading type=\"NUMBER\"") {
        return header;
    }
    let mut numberings = if nested { ordered_numbering_xml(2, 1) } else { ordered_numbering_xml(2, 0) };
    if nested {
        let second = ordered_numbering_xml(3, 0);
        numberings.append(second.as_str());
    }
    numberings.append("</hh:numberings>");
    let mut paras = if nested { ordered_para_pr_xml(19, 2, 2200) } else { ordered_para_pr_xml(19, 2, 1100) };
    if nested {
        let second = ordered_para_pr_xml(20, 3, 1100);
        paras.append(second.as_str());
    }
    paras.append("</hh:paraProperties>");
    let numbering_count: u64 = if nested { 3 } else { 2 };
    let para_count: u64 = if nested { 21 } else { 20 };
    let mut nc = owned("<hh:numberings itemCnt=\"");
    append_decimal(&mut nc, numbering_count);
    nc.append("\">");
    let mut pc = owned("<hh:paraProperties itemCnt=\"");
    append_decimal(&mut pc, para_count);
    pc.append("\">");
    let a = replace_first(header.as_str(), "<hh:numberings itemCnt=\"1\">", nc.as_str());
    let b = replace_first(a.as_str(), "</hh:numberings>", numberings.as_str());
    let c = replace_first(b.as_str(), "<hh:paraProperties itemCnt=\"19\">", pc.as_str());
    replace_first(c.as_str(), "</hh:paraProperties>", paras.as_str())
}

pub open spec fn spec_add_list_contract(h: Seq<char>, c: ListContract) -> Seq<char> {
    match c {
        ListContract::NoList => h,
        ListContract::Unordered(d) => spec_add_unordered(h, d),
        ListContract::OrderedSingleLevel => spec_add_ordered(h, false),
        ListContract::OrderedNestedDepth2 => spec_add_ordered(h, true),
    }
}

fn maybe_add_list_contract(header: String, contract: ListContract) -> (s: String)
    ensures
        s@ == spec_add_list_contract(header@, contract),
{
    match contract {
        ListContract::NoList => header,
        ListContract::Unordered(d) => maybe_add_unordered_list_contract(header, d),
        ListContract::OrderedSingleLevel => maybe_add_ordered_list_contract(header, false),
        ListContract::OrderedNestedDepth2 => maybe_add_ordered_list_contract(header, true),
    }
}

/// Whether an inline needs the header's extra character styles: any but plain
/// text and images.
pub open spec fn spec_inline_needs_style(i: InlineV) -> bool {
    !(i is Text || i is Image)
}

pub open spec fn spec_inlines_need_style(s: Seq<InlineV>) -> bool {
    exists|k: int| 0 <= k < s.len() && #[trigger] spec_inline_needs_style(s[k])
}

/// Whether a block needs the header's extra character styles: a heading, a
/// paragraph with styled inlines, or a quote holding either.
pub open spec fn spec_block_needs_style(b: BlockV) -> bool
    decreases b, 1int,
{
    match b {
        BlockV::Paragraph(s) => spec_inlines_need_style(s),
        BlockV::Heading { .. } => true,
        BlockV::BlockQuote(bs) => spec_blocks_need_style(bs),
        _ => false,
    }
}

pub open spec fn spec_blocks_need_style(bs: Seq<BlockV>) -> bool
    decreases bs, 0int,
{
    if bs.len() == 0 { false } else { spec_blocks_need_style(bs.drop_last()) || spec_block_needs_style(bs.last()) }
}

fn inlines_need_style(inlines: &Vec<Inline>) -> (b: bool)
    ensures
        b == spec_inlines_need_style(inlines_view(inlines@)),
{
    let ghost iv = inlines_view(inlines@);
    let mut i: usize = 0;
    while i < inlines.len()
        invariant
            i <= inlines.len(),
            iv == inlines_view(inlines@),
            forall|k: int| 0 <= k < i ==> !#[trigger] spec_inline_needs_style(iv[k]),
        decreases inlines.len() - i,
    {
        let needs = match &inlines[i] {
            Inline::Text(_) => false,
            Inline::Image(_) => false,
            _ => true,
        };
        assert(iv[i as int] == inlines@[i as int]@);
        assert(needs == spec_inline_needs_style(iv[i as int]));
        if needs {
            return true;
        }
        i += 1;
    }
    false
}

fn block_needs_style(block: &Block) -> (b: bool)
    ensures
        b == spec_block_needs_style(block@),
    decreases block, 1int,
{
    match block {
        Block::Paragraph(inlines) => inlines_need_style(inlines),
        Block::Heading { .. } => true,
        Block::BlockQuote(blocks) => blocks_need_style(blocks),
        _ => false,
    }
}

fn blocks_need_style(blocks: &Vec<Block>) -> (b: bool)
    ensures
        b == spec_blocks_need_style(blocks_view(blocks@)),
    decreases blocks, 0int,
{
    let ghost bv = blocks_view(blocks@);
    let mut r = false;
    let mut i: usize = 0;
    while i < blocks.len()
        invariant
            i <= blocks.len(),
            bv == blocks_view(blocks@),
            r == spec_blocks_need_style(bv.take(i as int)),
        decreases blocks.len() - i,
    {
        assert(bv.take(i + 1).drop_last() == bv.take(i as int));
        assert(bv.take(i + 1).last() == blocks@[i as int]@);
        proof {
            assert(decreases_to!(blocks => blocks@));
            assert(decreases_to!(blocks@ => blocks@[i as int]));
        }
        let b = block_needs_style(&blocks[i]);
        r = r || b;
        i += 1;
    }
    assert(bv.take(bv.len() as int) == bv);
    r
}

/// Whether a block is a table or a quote holding one.
pub open spec fn spec_block_has_table(b: BlockV) -> bool
    decreases b, 1int,
{
    match b {
        BlockV::Table(_) => true,
        BlockV::BlockQuote(bs) => spec_blocks_have_table(bs),
        _ => false,
    }
}

pub open spec fn spec_blocks_have_table(bs: Seq<BlockV>) -> bool
    decreases bs, 0int,
{
    if bs.len() == 0 { false } else { spec_blocks_have_table(bs.drop_last()) || spec_block_has_table(bs.last()) }
}

fn block_has_table(block: &Block) -> (b: bool)
    ensures
        b == spec_block_has_table(block@),
    decreases block, 1int,
{
    match block {
        Block::Table(_) => true,
        Block::BlockQuote(blocks) => blocks_have_table(blocks),
        _ => false,
    }
}

fn blocks_have_table(blocks: &Vec<Block>) -> (b: bool)
    ensures
        b == spec_blocks_have_table(blocks_view(blocks@)),
    decreases blocks, 0int,
{
    let ghost bv = blocks_view(blocks@);
    let mut r = false;
    let mut i: usize = 0;
    while i < blocks.len()
        invariant
            i <= blocks.len(),
            bv == blocks_view(blocks@),
            r == spec_blocks_have_table(bv.take(i as int)),
        decreases blocks.len() - i,
    {
        assert(bv.take(i + 1).drop_last() == bv.take(i as int));
        assert(bv.take(i + 1).last() == blocks@[i as int]@);
        proof {
            assert(decreases_to!(blocks => blocks@));
            assert(decreases_to!(blocks@ => blocks@[i as int]));
        }
        let b = block_has_table(&blocks[i]);
        r = r || b;
        i += 1;
    }
    assert(bv.take(bv.len() as int) == bv);
    r
}

/// How deep unordered lists nest in a block (counting from one at the top
/// unordered list, through quotes; an ordered list counts nothing); the count wraps
/// past 255.
pub open spec fn spec_unordered_depth(b: BlockV) -> u8
    decreases b, 1int,
{
    match b {
        BlockV::List(l) => if !l.ordered {
            let nested = spec_unordered_depth_items(l.items);
            if nested < 255 { (nested + 1) as u8 } else { 0 }
        } else {
            0
        },
        BlockV::BlockQuote(bs) => spec_unordered_depth_blocks(bs),
        _ => 0,
    }
}

pub open spec fn spec_unordered_depth_blocks(bs: Seq<BlockV>) -> u8
    decreases bs, 0int,
{
    if bs.len() == 0 { 0 } else { max_u8(spec_unordered_depth_blocks(bs.drop_last()), spec_unordered_depth(bs.last())) }
}

pub open spec fn spec_unordered_depth_items(items: Seq<Seq<BlockV>>) -> u8
    decreases items, 0int,
{
    if items.len() == 0 { 0 } else { max_u8(spec_unordered_depth_items(items.drop_last()), spec_unordered_depth_blocks(items.last())) }
}

fn unordered_depth(block: &Block) -> (d: u8)
    ensures
        d == spec_unordered_depth(block@),
    decreases block, 1int,
{
    match block {
        Block::List(list) => {
            if !list.ordered {
                let ghost iv = items_view(list.items@);
                let mut nested: u8 = 0;
                let mut k: usize = 0;
                while k < list.items.len()
                    invariant
                        k <= list.items.len(),
                        *block == Block::List(*list),
                        iv == items_view(list.items@),
                        nested == spec_unordered_depth_items(iv.take(k as int)),
                    decreases list.items.len() - k,
                {
                    assert(iv.take(k + 1).drop_last() == iv.take(k as int));
                    assert(iv.take(k + 1).last() == blocks_view(list.items@[k as int].blocks@));
                    proof {
                        assert(decreases_to!(*block => block->List_0));
                        assert(decreases_to!(list => list.items));
                        assert(decreases_to!(list.items => list.items@));
                        assert(decreases_to!(list.items@ => list.items@[k as int]));
                        assert(decreases_to!(list.items@[k as int] => list.items@[k as int].blocks));
                    }
                    let d = unordered_depth_blocks(&list.items[k].blocks);
                    nested = if nested >= d { nested } else { d };
                    k += 1;
                }
                assert(iv.take(iv.len() as int) == iv);
                if nested < 255 { nested + 1 } else { 0 }
            } else {
                0
            }
        },
        Block::BlockQuote(blocks) => unordered_depth_blocks(blocks),
        _ => 0,
    }
}

fn unordered_depth_blocks(blocks: &Vec<Block>) -> (d: u8)
    ensures
        d == spec_unordered_depth_blocks(blocks_view(blocks@)),
    decreases blocks, 0int,
{
    let ghost bv = blocks_view(blocks@);
    let mut m: u8 = 0;
    let mut i: usize = 0;
    while i < blocks.len()
        invariant
            i <= blocks.len(),
            bv == blocks_view(blocks@),
            m == spec_unordered_depth_blocks(bv.take(i as int)),
        decreases blocks.len() - i,
    {
        assert(bv.take(i + 1).drop_last() == bv.take(i as int));
        assert(bv.take(i + 1).last() == blocks@[i as int]@);
        proof {
            assert(decreases_to!(blocks => blocks@));
            assert(decreases_to!(blocks@ => blocks@[i as int]));
        }
        let d = unordered_depth(&blocks[i]);
        m = if m >= d { m } else { d };
        i += 1;
    }
    assert(bv.take(bv.len() as int) == bv);
    m
}

/// The list numbering that the blocks call for: ordered lists decide where there
/// are any (nested or not), else unordered lists with their depth, else none.
pub open spec fn spec_list_contract(bs: Seq<BlockV>) -> ListContract {
    let od = spec_ordered_depth_blocks(bs);
    if od > 0 {
        if od > 1 { ListContract::OrderedNestedDepth2 } else { ListContract::OrderedSingleLevel }
    } else {
        let ud = spec_unordered_depth_blocks(bs);
        if ud > 0 { ListContract::Unordered(ud) } else { ListContract::NoList }
    }
}

fn list_contract(document: &Document) -> (c: ListContract)
    ensures
        c == spec_list_contract(document@),
{
    let od = ordered_depth_blocks(&document.blocks);
    if od > 0 {
        return if od > 1 { ListContract::OrderedNestedDepth2 } else { ListContract::OrderedSingleLevel };
    }
    let ud = unordered_depth_blocks(&document.blocks);
    if ud > 0 { ListContract::Unordered(ud) } else { ListContract::NoList }
}

/// The header before tables and lists are considered: the template as it is for the
/// default style and unstyled content; with the extra character styles for the
/// default style and styled content; else with the style's fonts, character
/// styles and alignment applied and its extra character styles added.
pub open spec fn spec_styled_header(template: Seq<char>, styled: bool, st: ResolvedStyleV) -> Seq<char> {
    if spec_is_default(st) && !styled {
        template
    } else if spec_is_default(st) {
        spec_replace(
            spec_replace(template, "<hh:charProperties itemCnt=\"7\">"@, "<hh:charProperties itemCnt=\"15\">"@),
            "</hh:charProperties>"@,
            spec_legacy_char_prs() + "</hh:charProperties>"@,
        )
    } else {
        let h = spec_align_all(
            spec_apply_char_prs(spec_font_faces(template, st), spec_body_char_prs(st)),
            aligned_para_ids(),
            st.paragraph_align,
        );
        spec_replace(
            spec_replace(h, "<hh:charProperties itemCnt=\"7\">"@, "<hh:charProperties itemCnt=\"15\">"@),
            "</hh:charProperties>"@,
            spec_additional_char_prs(st) + "</hh:charProperties>"@,
        )
    }
}

/// The header part for a document in a style, from the header template.
pub open spec fn spec_header_xml(template: Seq<char>, blocks: Seq<BlockV>, st: ResolvedStyleV) -> Seq<char> {
    spec_add_list_contract(
        spec_add_table_border_fill(spec_styled_header(template, spec_blocks_need_style(blocks), st), spec_blocks_have_table(blocks)),
        spec_list_contract(blocks),
    )
}

/// The header part for a document in a style, from the header template.
pub fn build_header_xml(template: &str, document: &Document, style: &ResolvedHwpxStyle) -> (s: String)
    ensures
        s@ == spec_header_xml(template@, document@, style@),
{
    let needs_styled_header = blocks_need_style(&document.blocks);
    let needs_table_border_fill = blocks_have_table(&document.blocks);
    let contract = list_contract(document);
    let header = if style.is_default() && !needs_styled_header {
        owned(template)
    } else if style.is_default() {
        let counted = replace_all(template, "<hh:charProperties itemCnt=\"7\">", "<hh:charProperties itemCnt=\"15\">");
        let mut added = legacy_additional_char_properties();
        added.append("</hh:charProperties>");
        replace_all(counted.as_str(), "</hh:charProperties>", added.as_str())
    } else {
        let faced = apply_font_faces(template, style);
        let styled = apply_body_style(faced.as_str(), style);
        let aligned = apply_paragraph_alignment(styled.as_str(), style);
        let counted = replace_all(aligned.as_str(), "<hh:charProperties itemCnt=\"7\">", "<hh:charProperties itemCnt=\"15\">");
        let mut added = additional_char_properties(style);
        added.append("</hh:charProperties>");
        replace_all(counted.as_str(), "</hh:charProperties>", added.as_str())
    };
    maybe_add_list_contract(maybe_add_table_border_fill(header, needs_table_border_fill), contract)
}

} // verus!
