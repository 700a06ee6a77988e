//! WordprocessingML fragments: the document wrapper, paragraphs and runs.
use vstd::prelude::*;
use crate::utils::text::{decimal, decimal_string, owned, signed_decimal, signed_decimal_string};
use crate::utils::xml_helper::{escape_attr, escape_text, spec_escape_attr, spec_escape_text};

verus! {

/// How a run of text is formatted.
#[derive(Debug, Clone, Copy, PartialEq, Eq, Structural)]
pub struct RunStyle {
    pub bold: bool,
    pub italic: bool,
    pub code: bool,
    pub hyperlink: bool,
}

impl RunStyle {
    /// Plain text: no formatting.
    pub fn plain() -> (s: RunStyle)
        ensures
            s == spec_plain_style(),
    {
        RunStyle { bold: false, italic: false, code: false, hyperlink: false }
    }
}

impl Default for RunStyle {
    fn default() -> (s: RunStyle)
        ensures
            s == spec_plain_style(),
    {
        RunStyle::plain()
    }
}

pub open spec fn spec_plain_style() -> RunStyle {
    RunStyle { bold: false, italic: false, code: false, hyperlink: false }
}

pub open spec fn part_if(b: bool, part: Seq<char>) -> Seq<char> {
    if b { part } else { seq![] }
}

/// The run properties element of a style, or nothing for plain text.
pub open spec fn spec_run_properties(style: RunStyle) -> Seq<char> {
    let parts = part_if(style.bold, "<w:b/>"@) + part_if(style.italic, "<w:i/>"@) + part_if(
        style.code,
        "<w:rFonts w:ascii=\"Courier New\" w:hAnsi=\"Courier New\"/>"@,
    ) + part_if(style.hyperlink, "<w:rStyle w:val=\"Hyperlink\"/>"@);
    if parts.len() == 0 {
        seq![]
    } else {
        "<w:rPr>"@ + parts + "</w:rPr>"@
    }
}

/// Whether text must keep its leading or trailing spaces.
pub open spec fn spec_preserve_space(text: Seq<char>) -> bool {
    text.len() > 0 && (text[0] == ' ' || text.last() == ' ')
}

/// A run of text.
pub open spec fn spec_text_run(text: Seq<char>, style: RunStyle) -> Seq<char> {
    "<w:r>"@ + spec_run_properties(style) + "<w:t"@ + part_if(spec_preserve_space(text), " xml:space=\"preserve\""@)
        + ">"@ + spec_escape_text(text) + "</w:t></w:r>"@
}

/// A paragraph with optional properties.
pub open spec fn spec_paragraph(properties: Seq<char>, content: Seq<char>) -> Seq<char> {
    "<w:p>"@ + (if properties.len() == 0 { seq![] } else { "<w:pPr>"@ + properties + "</w:pPr>"@ }) + content
        + "</w:p>"@
}

/// The whole document part around a body.
pub open spec fn spec_wrap_document(body: Seq<char>) -> Seq<char> {
    "<?xml version=\"1.0\" encoding=\"UTF-8\" standalone=\"yes\"?>"@
        + "<w:document xmlns:r=\"http://schemas.openxmlformats.org/officeDocument/2006/relationships\" xmlns:w=\"http://schemas.openxmlformats.org/wordprocessingml/2006/main\" xmlns:wp=\"http://schemas.openxmlformats.org/drawingml/2006/wordprocessingDrawing\" xmlns:a=\"http://schemas.openxmlformats.org/drawingml/2006/main\" xmlns:pic=\"http://schemas.openxmlformats.org/drawingml/2006/picture\">"@
        + "<w:body>"@ + body
        + "<w:sectPr><w:pgSz w:w=\"12240\" w:h=\"15840\"/><w:pgMar w:top=\"1440\" w:right=\"1440\" w:bottom=\"1440\" w:left=\"1440\" w:header=\"708\" w:footer=\"708\" w:gutter=\"0\"/></w:sectPr></w:body></w:document>"@
}

/// An inline picture.
pub open spec fn spec_image_run(rid: Seq<char>, alt: Seq<char>, doc_pr_id: nat, c_nvpr_id: nat, cx: int, cy: int) -> Seq<char> {
    let r = spec_escape_attr(rid);
    let a = spec_escape_attr(alt);
    "<w:r><w:drawing><wp:inline distT=\"0\" distB=\"0\" distL=\"0\" distR=\"0\">"@ + "<wp:extent cx=\""@
        + signed_decimal(cx) + "\" cy=\""@ + signed_decimal(cy) + "\"/>"@
        + "<wp:effectExtent l=\"0\" t=\"0\" r=\"0\" b=\"0\"/>"@ + "<wp:docPr id=\""@ + decimal(doc_pr_id)
        + "\" name=\"Picture\" descr=\""@ + a + "\"/>"@
        + "<wp:cNvGraphicFramePr><a:graphicFrameLocks noChangeAspect=\"1\"/></wp:cNvGraphicFramePr>"@
        + "<a:graphic><a:graphicData uri=\"http://schemas.openxmlformats.org/drawingml/2006/picture\">"@
        + "<pic:pic><pic:nvPicPr><pic:cNvPr id=\""@ + decimal(c_nvpr_id) + "\" name=\"Image\" descr=\""@ + a
        + "\"/><pic:cNvPicPr/></pic:nvPicPr>"@ + "<pic:blipFill><a:blip r:embed=\""@ + r
        + "\"/><a:stretch><a:fillRect/></a:stretch></pic:blipFill>"@
        + "<pic:spPr><a:xfrm><a:off x=\"0\" y=\"0\"/><a:ext cx=\""@ + signed_decimal(cx) + "\" cy=\""@
        + signed_decimal(cy) + "\"/></a:xfrm><a:prstGeom prst=\"rect\"><a:avLst/></a:prstGeom></pic:spPr>"@
        + "</pic:pic></a:graphicData></a:graphic></wp:inline></w:drawing></w:r>"@
}

/// The run properties element of a style, or nothing for plain text.
pub fn run_properties(style: RunStyle) -> (s: String)
    ensures
        s@ == spec_run_properties(style),
{
    let mut parts = String::new();
    if style.bold {
        parts.append("<w:b/>");
    }
    if style.italic {
        parts.append("<w:i/>");
    }
    if style.code {
        parts.append("<w:rFonts w:ascii=\"Courier New\" w:hAnsi=\"Courier New\"/>");
    }
    if style.hyperlink {
        parts.append("<w:rStyle w:val=\"Hyperlink\"/>");
    }
    assert(parts@ =~= part_if(style.bold, "<w:b/>"@) + part_if(style.italic, "<w:i/>"@) + part_if(
        style.code,
        "<w:rFonts w:ascii=\"Courier New\" w:hAnsi=\"Courier New\"/>"@,
    ) + part_if(style.hyperlink, "<w:rStyle w:val=\"Hyperlink\"/>"@));
    if parts.as_str().is_empty() {
        return String::new();
    }
    let mut s = owned("<w:rPr>");
    s.append(parts.as_str());
    s.append("</w:rPr>");
    s
}

/// Whether text must keep its leading or trailing spaces.
pub fn preserve_space(text: &str) -> (b: bool)
    ensures
        b == spec_preserve_space(text@),
{
    let cs = crate::utils::text::chars_of(text);
    cs.len() > 0 && (cs[0] == ' ' || cs[cs.len() - 1] == ' ')
}

/// The whole document part around a body.
pub fn wrap_document(body: &str) -> (s: String)
    ensures
        s@ == spec_wrap_document(body@),
{
    let mut s = owned("<?xml version=\"1.0\" encoding=\"UTF-8\" standalone=\"yes\"?>");
    s.append(
        "<w:document xmlns:r=\"http://schemas.openxmlformats.org/officeDocument/2006/relationships\" xmlns:w=\"http://schemas.openxmlformats.org/wordprocessingml/2006/main\" xmlns:wp=\"http://schemas.openxmlformats.org/drawingml/2006/wordprocessingDrawing\" xmlns:a=\"http://schemas.openxmlformats.org/drawingml/2006/main\" xmlns:pic=\"http://schemas.openxmlformats.org/drawingml/2006/picture\">",
    );
    s.append("<w:body>");
    s.append(body);
    s.append(
        "<w:sectPr><w:pgSz w:w=\"12240\" w:h=\"15840\"/><w:pgMar w:top=\"1440\" w:right=\"1440\" w:bottom=\"1440\" w:left=\"1440\" w:header=\"708\" w:footer=\"708\" w:gutter=\"0\"/></w:sectPr></w:body></w:document>",
    );
    s
}

/// A paragraph with optional properties.
pub fn paragraph_with_properties(properties: &str, content: &str) -> (s: String)
    ensures
        s@ == spec_paragraph(properties@, content@),
{
    let mut s = owned("<w:p>");
    if !properties.is_empty() {
        s.append("<w:pPr>");
        s.append(properties);
        s.append("</w:pPr>");
    }
    s.append(content);
    s.append("</w:p>");
    assert(s@ =~= spec_paragraph(properties@, content@));
    s
}

/// A run of text.
pub fn text_run(text: &str, style: RunStyle) -> (s: String)
    ensures
        s@ == spec_text_run(text@, style),
{
    let escaped = escape_text(text);
    let mut s = owned("<w:r>");
    let props = run_properties(style);
    s.append(props.as_str());
    s.append("<w:t");
    if preserve_space(text) {
        s.append(" xml:space=\"preserve\"");
    }
    s.append(">");
    s.append(escaped.as_str());
    s.append("</w:t></w:r>");
    assert(s@ =~= spec_text_run(text@, style));
    s
}

/// An inline picture.
pub fn image_run(relationship_id: &str, alt_text: &str, doc_pr_id: usize, c_nvpr_id: usize, cx: i64, cy: i64) -> (s: String)
    ensures
        s@ == spec_image_run(relationship_id@, alt_text@, doc_pr_id as nat, c_nvpr_id as nat, cx as int, cy as int),
{
    let rid = escape_attr(relationship_id);
    let alt = escape_attr(alt_text);
    let cxs = signed_decimal_string(cx);
    let cys = signed_decimal_string(cy);
    let doc_id = decimal_string(doc_pr_id as u64);
    let pic_id = decimal_string(c_nvpr_id as u64);
    let mut s = owned("<w:r><w:drawing><wp:inline distT=\"0\" distB=\"0\" distL=\"0\" distR=\"0\">");
    s.append("<wp:extent cx=\"");
    s.append(cxs.as_str());
    s.append("\" cy=\"");
    s.append(cys.as_str());
    s.append("\"/>");
    s.append("<wp:effectExtent l=\"0\" t=\"0\" r=\"0\" b=\"0\"/>");
    s.append("<wp:docPr id=\"");
    s.append(doc_id.as_str());
    s.append("\" name=\"Picture\" descr=\"");
    s.append(alt.as_str());
    s.append("\"/>");
    s.append("<wp:cNvGraphicFramePr><a:graphicFrameLocks noChangeAspect=\"1\"/></wp:cNvGraphicFramePr>");
    s.append("<a:graphic><a:graphicData uri=\"http://schemas.openxmlformats.org/drawingml/2006/picture\">");
    s.append("<pic:pic><pic:nvPicPr><pic:cNvPr id=\"");
    s.append(pic_id.as_str());
    s.append("\" name=\"Image\" descr=\"");
    s.append(alt.as_str());
    s.append("\"/><pic:cNvPicPr/></pic:nvPicPr>");
    s.append("<pic:blipFill><a:blip r:embed=\"");
    s.append(rid.as_str());
    s.append("\"/><a:stretch><a:fillRect/></a:stretch></pic:blipFill>");
    s.append("<pic:spPr><a:xfrm><a:off x=\"0\" y=\"0\"/><a:ext cx=\"");
    s.append(cxs.as_str());
    s.append("\" cy=\"");
    s.append(cys.as_str());
    s.append("\"/></a:xfrm><a:prstGeom prst=\"rect\"><a:avLst/></a:prstGeom></pic:spPr>");
    s.append("</pic:pic></a:graphicData></a:graphic></wp:inline></w:drawing></w:r>");
    s
}

} // verus!
