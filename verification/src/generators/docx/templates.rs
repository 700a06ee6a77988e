//! The fixed and generated parts of a DOCX package besides the document body.
use vstd::prelude::*;
use crate::generators::docx::render::{ImageAsset, ImageAssetV, assets_view, strings_view};
use crate::utils::text::{decimal, decimal_string, lex_lt, owned, spec_trim_start_matches, str_eq, str_lt, trim_start_matches};
use crate::utils::xml_helper::{escape_attr, escape_text, spec_escape_attr, spec_escape_text};

verus! {

/// An image file extension and its content type.
pub struct TypeEntry {
    pub extension: String,
    pub mime_type: String,
}

pub open spec fn type_entries_view(s: Seq<TypeEntry>) -> Seq<(Seq<char>, Seq<char>)> {
    s.map_values(|e: TypeEntry| (e.extension@, e.mime_type@))
}

/// Inserts a key into a list of pairs kept in ascending key order; a pair with the
/// same key is replaced.
pub open spec fn spec_map_insert(pairs: Seq<(Seq<char>, Seq<char>)>, k: Seq<char>, v: Seq<char>) -> Seq<(Seq<char>, Seq<char>)>
    decreases pairs.len(),
{
    if pairs.len() == 0 {
        seq![(k, v)]
    } else if pairs[0].0 == k {
        pairs.update(0, (k, v))
    } else if lex_lt(k, pairs[0].0) {
        seq![(k, v)] + pairs
    } else {
        seq![pairs[0]] + spec_map_insert(pairs.drop_first(), k, v)
    }
}

/// The content type of each image extension, in ascending order of extension; the
/// last image with an extension decides its type.
pub open spec fn spec_image_types(images: Seq<ImageAssetV>) -> Seq<(Seq<char>, Seq<char>)>
    decreases images.len(),
{
    if images.len() == 0 {
        seq![]
    } else {
        spec_map_insert(spec_image_types(images.drop_last()), images.last().extension, images.last().mime_type)
    }
}

pub open spec fn spec_type_defaults(pairs: Seq<(Seq<char>, Seq<char>)>) -> Seq<char>
    decreases pairs.len(),
{
    if pairs.len() == 0 {
        seq![]
    } else {
        spec_type_defaults(pairs.drop_last()) + "<Default Extension=\""@ + spec_escape_attr(pairs.last().0)
            + "\" ContentType=\""@ + spec_escape_attr(pairs.last().1) + "\"/>"@
    }
}

/// The `[Content_Types].xml` part.
pub open spec fn spec_content_types(images: Seq<ImageAssetV>) -> Seq<char> {
    "<?xml version=\"1.0\" encoding=\"UTF-8\" standalone=\"yes\"?>"@
        + "<Types xmlns=\"http://schemas.openxmlformats.org/package/2006/content-types\">"@
        + "<Default Extension=\"rels\" ContentType=\"application/vnd.openxmlformats-package.relationships+xml\"/>"@
        + "<Default Extension=\"xml\" ContentType=\"application/xml\"/>"@ + spec_type_defaults(spec_image_types(images))
        + "<Override PartName=\"/docProps/core.xml\" ContentType=\"application/vnd.openxmlformats-package.core-properties+xml\"/>"@
        + "<Override PartName=\"/word/document.xml\" ContentType=\"application/vnd.openxmlformats-officedocument.wordprocessingml.document.main+xml\"/>"@
        + "<Override PartName=\"/word/styles.xml\" ContentType=\"application/vnd.openxmlformats-officedocument.wordprocessingml.styles+xml\"/>"@
        + "</Types>"@
}

proof fn lemma_map_insert_prefix(pairs: Seq<(Seq<char>, Seq<char>)>, k: Seq<char>, v: Seq<char>, j: int)
    requires
        0 <= j <= pairs.len(),
        forall|m: int| 0 <= m < j ==> pairs[m].0 != k && !lex_lt(k, #[trigger] pairs[m].0),
    ensures
        spec_map_insert(pairs, k, v) == pairs.take(j) + spec_map_insert(pairs.skip(j), k, v),
    decreases j,
{
    if j == 0 {
        assert(pairs.take(0) + pairs.skip(0) =~= pairs);
        assert(pairs.skip(0) == pairs);
        assert(pairs.take(0) + spec_map_insert(pairs, k, v) =~= spec_map_insert(pairs, k, v));
    } else {
        let rest = pairs.drop_first();
        assert forall|m: int| 0 <= m < j - 1 implies rest[m].0 != k && !lex_lt(k, #[trigger] rest[m].0) by {
            assert(rest[m] == pairs[m + 1]);
        }
        lemma_map_insert_prefix(rest, k, v, j - 1);
        assert(pairs[0].0 != k && !lex_lt(k, pairs[0].0));
        assert(rest.skip(j - 1) =~= pairs.skip(j));
        assert(seq![pairs[0]] + rest.take(j - 1) =~= pairs.take(j));
    }
}

fn insert_type(entries: &mut Vec<TypeEntry>, extension: &str, mime_type: &str)
    ensures
        type_entries_view(final(entries)@) == spec_map_insert(type_entries_view(old(entries)@), extension@, mime_type@),
{
    let ghost pairs = type_entries_view(entries@);
    let mut j: usize = 0;
    while j < entries.len() && !str_eq(entries[j].extension.as_str(), extension) && !str_lt(extension, entries[j].extension.as_str())
        invariant
            j <= entries.len(),
            pairs == type_entries_view(entries@),
            forall|m: int| 0 <= m < j ==> pairs[m].0 != extension@ && !lex_lt(extension@, #[trigger] pairs[m].0),
        decreases entries.len() - j,
    {
        assert(pairs[j as int].0 == entries@[j as int].extension@);
        j += 1;
    }
    proof {
        lemma_map_insert_prefix(pairs, extension@, mime_type@, j as int);
    }
    let entry = TypeEntry { extension: owned(extension), mime_type: owned(mime_type) };
    if j < entries.len() && str_eq(entries[j].extension.as_str(), extension) {
        entries.set(j, entry);
        assert(pairs.skip(j as int)[0].0 == extension@);
        assert(type_entries_view(entries@) =~= pairs.take(j as int) + pairs.skip(j as int).update(0, (extension@, mime_type@)));
    } else {
        entries.insert(j, entry);
        proof {
            if j < pairs.len() {
                assert(pairs.skip(j as int)[0] == pairs[j as int]);
            }
        }
        assert(type_entries_view(entries@) =~= pairs.take(j as int) + (seq![(extension@, mime_type@)] + pairs.skip(j as int)));
    }
}

/// The `[Content_Types].xml` part.
pub fn content_types(images: &Vec<ImageAsset>) -> (s: String)
    ensures
        s@ == spec_content_types(assets_view(images@)),
{
    let ghost imgs = assets_view(images@);
    let mut entries: Vec<TypeEntry> = Vec::new();
    let mut i: usize = 0;
    assert(type_entries_view(entries@) =~= seq![]);
    while i < images.len()
        invariant
            i <= images.len(),
            imgs == assets_view(images@),
            type_entries_view(entries@) == spec_image_types(imgs.take(i as int)),
        decreases images.len() - i,
    {
        assert(imgs.take(i + 1).drop_last() == imgs.take(i as int));
        assert(imgs.take(i + 1).last() == images@[i as int]@);
        insert_type(&mut entries, images[i].extension.as_str(), images[i].mime_type.as_str());
        i += 1;
    }
    assert(imgs.take(imgs.len() as int) == imgs);
    let ghost pairs = type_entries_view(entries@);
    let mut defaults = String::new();
    let mut k: usize = 0;
    while k < entries.len()
        invariant
            k <= entries.len(),
            pairs == type_entries_view(entries@),
            defaults@ == spec_type_defaults(pairs.take(k as int)),
        decreases entries.len() - k,
    {
        assert(pairs.take(k + 1).drop_last() == pairs.take(k as int));
        assert(pairs.take(k + 1).last() == (entries@[k as int].extension@, entries@[k as int].mime_type@));
        let ext = escape_attr(entries[k].extension.as_str());
        let mime = escape_attr(entries[k].mime_type.as_str());
        defaults.append("<Default Extension=\"");
        defaults.append(ext.as_str());
        defaults.append("\" ContentType=\"");
        defaults.append(mime.as_str());
        defaults.append("\"/>");
        k += 1;
    }
    assert(pairs.take(pairs.len() as int) == pairs);
    let mut s = owned("<?xml version=\"1.0\" encoding=\"UTF-8\" standalone=\"yes\"?>");
    s.append("<Types xmlns=\"http://schemas.openxmlformats.org/package/2006/content-types\">");
    s.append("<Default Extension=\"rels\" ContentType=\"application/vnd.openxmlformats-package.relationships+xml\"/>");
    s.append("<Default Extension=\"xml\" ContentType=\"application/xml\"/>");
    s.append(defaults.as_str());
    s.append("<Override PartName=\"/docProps/core.xml\" ContentType=\"application/vnd.openxmlformats-package.core-properties+xml\"/>");
    s.append("<Override PartName=\"/word/document.xml\" ContentType=\"application/vnd.openxmlformats-officedocument.wordprocessingml.document.main+xml\"/>");
    s.append("<Override PartName=\"/word/styles.xml\" ContentType=\"application/vnd.openxmlformats-officedocument.wordprocessingml.styles+xml\"/>");
    s.append("</Types>");
    s
}

/// The package relationships part.
pub open spec fn spec_root_relationships() -> Seq<char> {
    "<?xml version=\"1.0\" encoding=\"UTF-8\" standalone=\"yes\"?>"@
        + "<Relationships xmlns=\"http://schemas.openxmlformats.org/package/2006/relationships\">"@
        + "<Relationship Id=\"rId1\" Type=\"http://schemas.openxmlformats.org/officeDocument/2006/relationships/officeDocument\" Target=\"word/document.xml\"/>"@
        + "<Relationship Id=\"rId2\" Type=\"http://schemas.openxmlformats.org/package/2006/relationships/metadata/core-properties\" Target=\"docProps/core.xml\"/>"@
        + "</Relationships>"@
}

/// The package relationships part.
pub fn root_relationships() -> (s: String)
    ensures
        s@ == spec_root_relationships(),
{
    let mut s = owned("<?xml version=\"1.0\" encoding=\"UTF-8\" standalone=\"yes\"?>");
    s.append("<Relationships xmlns=\"http://schemas.openxmlformats.org/package/2006/relationships\">");
    s.append("<Relationship Id=\"rId1\" Type=\"http://schemas.openxmlformats.org/officeDocument/2006/relationships/officeDocument\" Target=\"word/document.xml\"/>");
    s.append("<Relationship Id=\"rId2\" Type=\"http://schemas.openxmlformats.org/package/2006/relationships/metadata/core-properties\" Target=\"docProps/core.xml\"/>");
    s.append("</Relationships>");
    s
}

/// The core properties part: title and author, at a fixed date.
pub open spec fn spec_core_properties(title: Seq<char>, author: Seq<char>) -> Seq<char> {
    "<?xml version=\"1.0\" encoding=\"UTF-8\" standalone=\"yes\"?>"@
        + "<cp:coreProperties xmlns:cp=\"http://schemas.openxmlformats.org/package/2006/metadata/core-properties\" xmlns:dc=\"http://purl.org/dc/elements/1.1/\" xmlns:dcterms=\"http://purl.org/dc/terms/\" xmlns:dcmitype=\"http://purl.org/dc/dcmitype/\" xmlns:xsi=\"http://www.w3.org/2001/XMLSchema-instance\">"@
        + "<dc:title>"@ + spec_escape_text(title) + "</dc:title><dc:creator>"@ + spec_escape_text(author)
        + "</dc:creator><cp:lastModifiedBy>"@ + spec_escape_text(author)
        + "</cp:lastModifiedBy><dcterms:created xsi:type=\"dcterms:W3CDTF\">2024-01-01T00:00:00Z</dcterms:created><dcterms:modified xsi:type=\"dcterms:W3CDTF\">2024-01-01T00:00:00Z</dcterms:modified></cp:coreProperties>"@
}

/// The core properties part: title and author, at a fixed date.
pub fn core_properties(title: &str, author: &str) -> (s: String)
    ensures
        s@ == spec_core_properties(title@, author@),
{
    let t = escape_text(title);
    let a = escape_text(author);
    let mut s = owned("<?xml version=\"1.0\" encoding=\"UTF-8\" standalone=\"yes\"?>");
    s.append("<cp:coreProperties xmlns:cp=\"http://schemas.openxmlformats.org/package/2006/metadata/core-properties\" xmlns:dc=\"http://purl.org/dc/elements/1.1/\" xmlns:dcterms=\"http://purl.org/dc/terms/\" xmlns:dcmitype=\"http://purl.org/dc/dcmitype/\" xmlns:xsi=\"http://www.w3.org/2001/XMLSchema-instance\">");
    s.append("<dc:title>");
    s.append(t.as_str());
    s.append("</dc:title><dc:creator>");
    s.append(a.as_str());
    s.append("</dc:creator><cp:lastModifiedBy>");
    s.append(a.as_str());
    s.append("</cp:lastModifiedBy><dcterms:created xsi:type=\"dcterms:W3CDTF\">2024-01-01T00:00:00Z</dcterms:created><dcterms:modified xsi:type=\"dcterms:W3CDTF\">2024-01-01T00:00:00Z</dcterms:modified></cp:coreProperties>");
    s
}

pub open spec fn spec_link_relationships(urls: Seq<Seq<char>>) -> Seq<char>
    decreases urls.len(),
{
    if urls.len() == 0 {
        seq![]
    } else {
        spec_link_relationships(urls.drop_last()) + "<Relationship Id=\"rLink"@ + decimal(urls.len())
            + "\" Type=\"http://schemas.openxmlformats.org/officeDocument/2006/relationships/hyperlink\" Target=\""@
            + spec_escape_attr(urls.last()) + "\" TargetMode=\"External\"/>"@
    }
}

pub open spec fn spec_image_relationships(images: Seq<ImageAssetV>) -> Seq<char>
    decreases images.len(),
{
    if images.len() == 0 {
        seq![]
    } else {
        spec_image_relationships(images.drop_last()) + "<Relationship Id=\""@ + spec_escape_attr(images.last().relationship_id)
            + "\" Type=\"http://schemas.openxmlformats.org/officeDocument/2006/relationships/image\" Target=\""@
            + spec_escape_attr(spec_trim_start_matches(images.last().target, "word/"@)) + "\"/>"@
    }
}

/// The document relationships part: styles, then each hyperlink, then each image.
pub open spec fn spec_document_relationships(urls: Seq<Seq<char>>, images: Seq<ImageAssetV>) -> Seq<char> {
    "<?xml version=\"1.0\" encoding=\"UTF-8\" standalone=\"yes\"?>"@
        + "<Relationships xmlns=\"http://schemas.openxmlformats.org/package/2006/relationships\">"@
        + "<Relationship Id=\"rIdStyles\" Type=\"http://schemas.openxmlformats.org/officeDocument/2006/relationships/styles\" Target=\"styles.xml\"/>"@
        + spec_link_relationships(urls) + spec_image_relationships(images) + "</Relationships>"@
}

/// The document relationships part: styles, then each hyperlink, then each image.
pub fn document_relationships(hyperlinks: &Vec<String>, images: &Vec<ImageAsset>) -> (s: String)
    ensures
        s@ == spec_document_relationships(strings_view(hyperlinks@), assets_view(images@)),
{
    let ghost urls = strings_view(hyperlinks@);
    let ghost imgs = assets_view(images@);
    let mut s = owned("<?xml version=\"1.0\" encoding=\"UTF-8\" standalone=\"yes\"?>");
    s.append("<Relationships xmlns=\"http://schemas.openxmlformats.org/package/2006/relationships\">");
    s.append("<Relationship Id=\"rIdStyles\" Type=\"http://schemas.openxmlformats.org/officeDocument/2006/relationships/styles\" Target=\"styles.xml\"/>");
    let ghost head = s@;
    let mut i: usize = 0;
    while i < hyperlinks.len()
        invariant
            i <= hyperlinks.len(),
            urls == strings_view(hyperlinks@),
            s@ == head + spec_link_relationships(urls.take(i as int)),
        decreases hyperlinks.len() - i,
    {
        assert(urls.take(i + 1).drop_last() == urls.take(i as int));
        assert(urls.take(i + 1).last() == hyperlinks@[i as int]@);
        let number = decimal_string((i + 1) as u64);
        let url = escape_attr(hyperlinks[i].as_str());
        s.append("<Relationship Id=\"rLink");
        s.append(number.as_str());
        s.append("\" Type=\"http://schemas.openxmlformats.org/officeDocument/2006/relationships/hyperlink\" Target=\"");
        s.append(url.as_str());
        s.append("\" TargetMode=\"External\"/>");
        i += 1;
    }
    assert(urls.take(urls.len() as int) == urls);
    let ghost mid = s@;
    let mut k: usize = 0;
    while k < images.len()
        invariant
            k <= images.len(),
            imgs == assets_view(images@),
            s@ == mid + spec_image_relationships(imgs.take(k as int)),
        decreases images.len() - k,
    {
        assert(imgs.take(k + 1).drop_last() == imgs.take(k as int));
        assert(imgs.take(k + 1).last() == images@[k as int]@);
        let rid = escape_attr(images[k].relationship_id.as_str());
        let trimmed = trim_start_matches(images[k].target.as_str(), "word/");
        let target = escape_attr(trimmed.as_str());
        s.append("<Relationship Id=\"");
        s.append(rid.as_str());
        s.append("\" Type=\"http://schemas.openxmlformats.org/officeDocument/2006/relationships/image\" Target=\"");
        s.append(target.as_str());
        s.append("\"/>");
        k += 1;
    }
    assert(imgs.take(imgs.len() as int) == imgs);
    s.append("</Relationships>");
    s
}

/// The styles part: the base styles, heading styles up to the deepest heading used
/// (at least three), and the hyperlink style.
pub open spec fn spec_styles(max_heading_level: u8) -> Seq<char> {
    "<?xml version=\"1.0\" encoding=\"UTF-8\" standalone=\"yes\"?>"@ + "<w:styles xmlns:w=\"http://schemas.openxmlformats.org/wordprocessingml/2006/main\">"@ + "<w:docDefaults><w:rPrDefault><w:rPr><w:rFonts w:asciiTheme=\"minorHAnsi\" w:hAnsiTheme=\"minorHAnsi\" w:eastAsiaTheme=\"minorHAnsi\" w:cstheme=\"minorBidi\"/><w:sz w:val=\"22\"/><w:szCs w:val=\"22\"/><w:lang w:val=\"en-US\" w:eastAsia=\"ko-KR\" w:bidi=\"ar-SA\"/></w:rPr></w:rPrDefault><w:pPrDefault/></w:docDefaults>"@ + "<w:latentStyles w:defLockedState=\"0\" w:defUIPriority=\"99\" w:defSemiHidden=\"0\" w:defUnhideWhenUsed=\"0\" w:defQFormat=\"0\" w:count=\"0\"/>"@ + "<w:style w:type=\"paragraph\" w:default=\"1\" w:styleId=\"Normal\"><w:name w:val=\"Normal\"/><w:qFormat/></w:style>"@ + "<w:style w:type=\"character\" w:default=\"1\" w:styleId=\"DefaultParagraphFont\"><w:name w:val=\"Default Paragraph Font\"/><w:uiPriority w:val=\"1\"/><w:semiHidden/><w:unhideWhenUsed/></w:style>"@ + "<w:style w:type=\"paragraph\" w:styleId=\"Heading1\"><w:name w:val=\"heading 1\"/><w:basedOn w:val=\"Normal\"/><w:next w:val=\"Normal\"/><w:uiPriority w:val=\"9\"/><w:unhideWhenUsed/><w:qFormat/><w:rPr><w:b/><w:sz w:val=\"32\"/></w:rPr></w:style>"@ + "<w:style w:type=\"paragraph\" w:styleId=\"Heading2\"><w:name w:val=\"heading 2\"/><w:basedOn w:val=\"Normal\"/><w:next w:val=\"Normal\"/><w:uiPriority w:val=\"9\"/><w:unhideWhenUsed/><w:qFormat/><w:rPr><w:b/><w:sz w:val=\"28\"/></w:rPr></w:style>"@ + "<w:style w:type=\"paragraph\" w:styleId=\"Heading3\"><w:name w:val=\"heading 3\"/><w:basedOn w:val=\"Normal\"/><w:next w:val=\"Normal\"/><w:uiPriority w:val=\"9\"/><w:unhideWhenUsed/><w:qFormat/><w:rPr><w:b/><w:sz w:val=\"26\"/></w:rPr></w:style>"@
        + part_if(max_heading_level >= 4, "<w:style w:type=\"paragraph\" w:styleId=\"Heading4\"><w:name w:val=\"heading 4\"/><w:basedOn w:val=\"Normal\"/><w:next w:val=\"Normal\"/><w:uiPriority w:val=\"9\"/><w:unhideWhenUsed/><w:qFormat/><w:rPr><w:b/><w:sz w:val=\"24\"/></w:rPr></w:style>"@)
        + part_if(max_heading_level >= 5, "<w:style w:type=\"paragraph\" w:styleId=\"Heading5\"><w:name w:val=\"heading 5\"/><w:basedOn w:val=\"Normal\"/><w:next w:val=\"Normal\"/><w:uiPriority w:val=\"9\"/><w:unhideWhenUsed/><w:qFormat/><w:rPr><w:b/><w:sz w:val=\"22\"/></w:rPr></w:style>"@)
        + part_if(max_heading_level >= 6, "<w:style w:type=\"paragraph\" w:styleId=\"Heading6\"><w:name w:val=\"heading 6\"/><w:basedOn w:val=\"Normal\"/><w:next w:val=\"Normal\"/><w:uiPriority w:val=\"9\"/><w:unhideWhenUsed/><w:qFormat/><w:rPr><w:b/><w:sz w:val=\"22\"/></w:rPr></w:style>"@)
        + "<w:style w:type=\"character\" w:styleId=\"Hyperlink\"><w:name w:val=\"Hyperlink\"/><w:basedOn w:val=\"DefaultParagraphFont\"/><w:uiPriority w:val=\"99\"/><w:unhideWhenUsed/><w:rPr><w:color w:val=\"0563C1\"/><w:u w:val=\"single\"/></w:rPr></w:style>"@ + "</w:styles>"@
}

pub open spec fn part_if(b: bool, part: Seq<char>) -> Seq<char> {
    if b { part } else { seq![] }
}

/// The styles part.
pub fn styles(max_heading_level: u8) -> (s: String)
    ensures
        s@ == spec_styles(max_heading_level),
{
    let mut s = owned("<?xml version=\"1.0\" encoding=\"UTF-8\" standalone=\"yes\"?>");
    s.append("<w:styles xmlns:w=\"http://schemas.openxmlformats.org/wordprocessingml/2006/main\">");
    s.append("<w:docDefaults><w:rPrDefault><w:rPr><w:rFonts w:asciiTheme=\"minorHAnsi\" w:hAnsiTheme=\"minorHAnsi\" w:eastAsiaTheme=\"minorHAnsi\" w:cstheme=\"minorBidi\"/><w:sz w:val=\"22\"/><w:szCs w:val=\"22\"/><w:lang w:val=\"en-US\" w:eastAsia=\"ko-KR\" w:bidi=\"ar-SA\"/></w:rPr></w:rPrDefault><w:pPrDefault/></w:docDefaults>");
    s.append("<w:latentStyles w:defLockedState=\"0\" w:defUIPriority=\"99\" w:defSemiHidden=\"0\" w:defUnhideWhenUsed=\"0\" w:defQFormat=\"0\" w:count=\"0\"/>");
    s.append("<w:style w:type=\"paragraph\" w:default=\"1\" w:styleId=\"Normal\"><w:name w:val=\"Normal\"/><w:qFormat/></w:style>");
    s.append("<w:style w:type=\"character\" w:default=\"1\" w:styleId=\"DefaultParagraphFont\"><w:name w:val=\"Default Paragraph Font\"/><w:uiPriority w:val=\"1\"/><w:semiHidden/><w:unhideWhenUsed/></w:style>");
    s.append("<w:style w:type=\"paragraph\" w:styleId=\"Heading1\"><w:name w:val=\"heading 1\"/><w:basedOn w:val=\"Normal\"/><w:next w:val=\"Normal\"/><w:uiPriority w:val=\"9\"/><w:unhideWhenUsed/><w:qFormat/><w:rPr><w:b/><w:sz w:val=\"32\"/></w:rPr></w:style>");
    s.append("<w:style w:type=\"paragraph\" w:styleId=\"Heading2\"><w:name w:val=\"heading 2\"/><w:basedOn w:val=\"Normal\"/><w:next w:val=\"Normal\"/><w:uiPriority w:val=\"9\"/><w:unhideWhenUsed/><w:qFormat/><w:rPr><w:b/><w:sz w:val=\"28\"/></w:rPr></w:style>");
    s.append("<w:style w:type=\"paragraph\" w:styleId=\"Heading3\"><w:name w:val=\"heading 3\"/><w:basedOn w:val=\"Normal\"/><w:next w:val=\"Normal\"/><w:uiPriority w:val=\"9\"/><w:unhideWhenUsed/><w:qFormat/><w:rPr><w:b/><w:sz w:val=\"26\"/></w:rPr></w:style>");
    let ghost head = s@;
    if max_heading_level >= 4 {
        s.append("<w:style w:type=\"paragraph\" w:styleId=\"Heading4\"><w:name w:val=\"heading 4\"/><w:basedOn w:val=\"Normal\"/><w:next w:val=\"Normal\"/><w:uiPriority w:val=\"9\"/><w:unhideWhenUsed/><w:qFormat/><w:rPr><w:b/><w:sz w:val=\"24\"/></w:rPr></w:style>");
    }
    let ghost h4 = s@;
    if max_heading_level >= 5 {
        s.append("<w:style w:type=\"paragraph\" w:styleId=\"Heading5\"><w:name w:val=\"heading 5\"/><w:basedOn w:val=\"Normal\"/><w:next w:val=\"Normal\"/><w:uiPriority w:val=\"9\"/><w:unhideWhenUsed/><w:qFormat/><w:rPr><w:b/><w:sz w:val=\"22\"/></w:rPr></w:style>");
    }
    let ghost h5 = s@;
    if max_heading_level >= 6 {
        s.append("<w:style w:type=\"paragraph\" w:styleId=\"Heading6\"><w:name w:val=\"heading 6\"/><w:basedOn w:val=\"Normal\"/><w:next w:val=\"Normal\"/><w:uiPriority w:val=\"9\"/><w:unhideWhenUsed/><w:qFormat/><w:rPr><w:b/><w:sz w:val=\"22\"/></w:rPr></w:style>");
    }
    assert(h4 =~= head + part_if(max_heading_level >= 4, "<w:style w:type=\"paragraph\" w:styleId=\"Heading4\"><w:name w:val=\"heading 4\"/><w:basedOn w:val=\"Normal\"/><w:next w:val=\"Normal\"/><w:uiPriority w:val=\"9\"/><w:unhideWhenUsed/><w:qFormat/><w:rPr><w:b/><w:sz w:val=\"24\"/></w:rPr></w:style>"@));
    assert(h5 =~= h4 + part_if(max_heading_level >= 5, "<w:style w:type=\"paragraph\" w:styleId=\"Heading5\"><w:name w:val=\"heading 5\"/><w:basedOn w:val=\"Normal\"/><w:next w:val=\"Normal\"/><w:uiPriority w:val=\"9\"/><w:unhideWhenUsed/><w:qFormat/><w:rPr><w:b/><w:sz w:val=\"22\"/></w:rPr></w:style>"@));
    assert(s@ =~= h5 + part_if(max_heading_level >= 6, "<w:style w:type=\"paragraph\" w:styleId=\"Heading6\"><w:name w:val=\"heading 6\"/><w:basedOn w:val=\"Normal\"/><w:next w:val=\"Normal\"/><w:uiPriority w:val=\"9\"/><w:unhideWhenUsed/><w:qFormat/><w:rPr><w:b/><w:sz w:val=\"22\"/></w:rPr></w:style>"@));
    s.append("<w:style w:type=\"character\" w:styleId=\"Hyperlink\"><w:name w:val=\"Hyperlink\"/><w:basedOn w:val=\"DefaultParagraphFont\"/><w:uiPriority w:val=\"99\"/><w:unhideWhenUsed/><w:rPr><w:color w:val=\"0563C1\"/><w:u w:val=\"single\"/></w:rPr></w:style>");
    s.append("</w:styles>");
    s
}

} // verus!
