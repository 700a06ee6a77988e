//! The HWPX generator: the header, section, preview and settings parts of a
//! document, packed with the package's fixed parts in their order.
use vstd::prelude::*;
use crate::error::{CoreRsError, ErrorKind, ErrorV};
use crate::generators::docx::text_entry;
use crate::generators::hwpx::collect::spec_section_items;
use crate::generators::hwpx::compat::{
    CompatSectionTemplates, build_compat_preview_text, build_compat_section_xml, spec_compat_preview,
    spec_compat_section_xml,
};
use crate::generators::hwpx::header::{build_header_xml, spec_header_xml};
use crate::generators::hwpx::items::{SectionItemV, spec_join, spec_ordered_list_shape};
use crate::generators::hwpx::package::{mimetype, settings_xml, spec_settings_xml};
use crate::generators::hwpx::profile::{CompatibilityProfile, resolve_compatibility_profile, spec_profile};
use crate::generators::hwpx::section::{
    CaretPosition, build_preview_text, build_section_xml, section_open, spec_body, spec_preview_caret,
    spec_visible,
};
use crate::generators::hwpx::style::{HwpxOptions, ResolvedHwpxStyle, ResolvedStyleV, spec_resolve_style};
use crate::models::block::BlockV;
use crate::models::document::Document;
use crate::utils::text::owned;
use crate::utils::zip_archiver::{ArchiveEntry, Compression, EntryV, contents_fit, entries_view, entry_packable, packable, reads_back, spec_packs, spec_zip_bytes, zip_entries_in_order, MAX_PACKED_ENTRY_BYTES, lemma_utf8_len_bound};
use vstd::utf8::encode_utf8;

verus! {

/// The fixed parts of an HWPX package, as the reference package holds them: the
/// header and settings templates, the version, container, RDF and manifest parts,
/// the package description, and the two preview images (one for the reference
/// document, one for any other).
#[derive(Debug, Clone)]
pub struct HwpxPackageParts {
    pub header_template: String,
    pub settings_template: String,
    pub version_xml: String,
    pub container_xml: String,
    pub container_rdf_xml: String,
    pub manifest_xml: String,
    pub content_hpf: String,
    pub preview_image: Vec<u8>,
    pub core_paragraph_preview_image: Vec<u8>,
    pub profile_headers: ProfileHeaderTemplates,
    pub compat_sections: CompatSectionTemplates,
}

/// The header parts of the compatibility profiles that have one of their own.
#[derive(Debug, Clone)]
pub struct ProfileHeaderTemplates {
    pub core_paragraph: String,
    pub core_inline_style: String,
    pub core_link_text: String,
    pub core_mixed: String,
    pub style_brand_color: String,
    pub style_centered_layout: String,
    pub style_typography: String,
}

/// The header of a profile that has one of its own; the others build theirs.
pub open spec fn profile_header(t: ProfileHeaderTemplates, p: CompatibilityProfile) -> Option<Seq<char>> {
    match p {
        CompatibilityProfile::CoreParagraph => Some(t.core_paragraph@),
        CompatibilityProfile::CoreInlineStyle => Some(t.core_inline_style@),
        CompatibilityProfile::CoreLinkText => Some(t.core_link_text@),
        CompatibilityProfile::CoreMixed => Some(t.core_mixed@),
        CompatibilityProfile::StyleBrandColor => Some(t.style_brand_color@),
        CompatibilityProfile::StyleCenteredLayout => Some(t.style_centered_layout@),
        CompatibilityProfile::StyleTypography => Some(t.style_typography@),
        _ => None,
    }
}

fn header_for_profile(t: &ProfileHeaderTemplates, p: CompatibilityProfile) -> (r: Option<String>)
    ensures
        match profile_header(*t, p) {
            Some(h) => r matches Some(x) && x@ == h,
            None => r is None,
        },
{
    match p {
        CompatibilityProfile::CoreParagraph => Some(t.core_paragraph.clone()),
        CompatibilityProfile::CoreInlineStyle => Some(t.core_inline_style.clone()),
        CompatibilityProfile::CoreLinkText => Some(t.core_link_text.clone()),
        CompatibilityProfile::CoreMixed => Some(t.core_mixed.clone()),
        CompatibilityProfile::StyleBrandColor => Some(t.style_brand_color.clone()),
        CompatibilityProfile::StyleCenteredLayout => Some(t.style_centered_layout.clone()),
        CompatibilityProfile::StyleTypography => Some(t.style_typography.clone()),
        _ => None,
    }
}

/// A deflated text entry.
pub open spec fn deflated_entry(path: Seq<char>, text: Seq<char>) -> EntryV {
    (path, encode_utf8(text), true)
}

/// The files of an HWPX package, in the order they are packed.
pub open spec fn spec_hwpx_entries(
    parts: HwpxPackageParts,
    header: Seq<char>,
    section: Seq<char>,
    preview: Seq<char>,
    settings: Seq<char>,
    image: Seq<u8>,
) -> Seq<EntryV> {
    seq![
        text_entry("mimetype"@, "application/hwp+zip"@),
        deflated_entry("version.xml"@, parts.version_xml@),
        deflated_entry("Contents/header.xml"@, header),
        deflated_entry("Contents/section0.xml"@, section),
        deflated_entry("Preview/PrvText.txt"@, preview),
        deflated_entry("settings.xml"@, settings),
        ("Preview/PrvImage.png"@, image, false),
        deflated_entry("META-INF/container.rdf"@, parts.container_rdf_xml@),
        deflated_entry("Contents/content.hpf"@, parts.content_hpf@),
        deflated_entry("META-INF/container.xml"@, parts.container_xml@),
        deflated_entry("META-INF/manifest.xml"@, parts.manifest_xml@),
    ]
}

/// The files of an HWPX package have distinct short paths, so the package packs
/// with certainty whenever each file's contents fit.
pub proof fn lemma_hwpx_entries_pack(
    parts: HwpxPackageParts,
    header: Seq<char>,
    section: Seq<char>,
    preview: Seq<char>,
    settings: Seq<char>,
    image: Seq<u8>,
)
    ensures
        contents_fit(spec_hwpx_entries(parts, header, section, preview, settings, image))
            ==> packable(spec_hwpx_entries(parts, header, section, preview, settings, image)),
{
    reveal_strlit("mimetype");
    reveal_strlit("version.xml");
    reveal_strlit("Contents/header.xml");
    reveal_strlit("Contents/section0.xml");
    reveal_strlit("Preview/PrvText.txt");
    reveal_strlit("settings.xml");
    reveal_strlit("Preview/PrvImage.png");
    reveal_strlit("META-INF/container.rdf");
    reveal_strlit("Contents/content.hpf");
    reveal_strlit("META-INF/container.xml");
    reveal_strlit("META-INF/manifest.xml");
    let es = spec_hwpx_entries(parts, header, section, preview, settings, image);
    if contents_fit(es) {
        assert forall|i: int| 0 <= i < es.len() implies #[trigger] entry_packable(es[i]) by {
            lemma_utf8_len_bound(es[i].0);
            assert(es[i].1.len() <= MAX_PACKED_ENTRY_BYTES);
        }
        assert forall|i: int, j: int| 0 <= i < j < es.len() implies #[trigger] es[i].0 != #[trigger] es[j].0 by {
            if es[i].0 == es[j].0 {
                assert(es[i].0.len() == es[j].0.len());
                assert(es[i].0[0] == es[j].0[0]);
                assert(es[i].0[es[i].0.len() - 1] == es[j].0[es[j].0.len() - 1]);
                assert(es[i].0[9] == es[j].0[9]);
            }
        }
    }
}

/// The preview image of a profile.
pub open spec fn preview_image_for(parts: HwpxPackageParts, p: CompatibilityProfile) -> Seq<u8> {
    if p == CompatibilityProfile::CoreParagraphFixture {
        parts.core_paragraph_preview_image@
    } else {
        parts.preview_image@
    }
}

/// The package of section items in a style: its files in order.
/// The header of a package: the profile's own, or one built from the template.
pub open spec fn package_header(parts: HwpxPackageParts, blocks: Seq<BlockV>, st: ResolvedStyleV) -> Seq<char> {
    match profile_header(parts.profile_headers, spec_profile(blocks, st)) {
        Some(h) => h,
        None => spec_header_xml(parts.header_template@, blocks, st),
    }
}

/// The entries of a package with the given section, preview and caret.
pub open spec fn spec_entries_with(
    parts: HwpxPackageParts,
    blocks: Seq<BlockV>,
    st: ResolvedStyleV,
    section: Seq<char>,
    preview: Seq<char>,
    caret: (nat, nat),
) -> Seq<EntryV> {
    spec_hwpx_entries(
        parts,
        package_header(parts, blocks, st),
        section,
        preview,
        spec_settings_xml(parts.settings_template@, caret.0, caret.1),
        preview_image_for(parts, spec_profile(blocks, st)),
    )
}

/// The section, the preview text and the caret of a document: from its section
/// items in the legacy profile, from its compat paragraphs otherwise.
pub open spec fn spec_section_and_preview(
    blocks: Seq<BlockV>,
    strict: bool,
    p: CompatibilityProfile,
    st: ResolvedStyleV,
    t: CompatSectionTemplates,
) -> Result<(Seq<char>, Seq<char>, (nat, nat)), ErrorV> {
    if p == CompatibilityProfile::LegacyDefault {
        match spec_section_items(blocks, strict, spec_ordered_list_shape(blocks)) {
            Err(e) => Err(e),
            Ok(items) => Ok((
                section_open() + spec_body(items).0 + "</hs:sec>"@,
                spec_join(spec_visible(items), "\r\n"@),
                spec_preview_caret(items),
            )),
        }
    } else {
        match spec_compat_section_xml(blocks, p, st, t) {
            Err(e) => Err(e),
            Ok(section) => match spec_compat_preview(blocks, p, st, t) {
                Err(e) => Err(e),
                Ok(preview) => Ok((section, preview.0, preview.1)),
            },
        }
    }
}

/// What generating an HWPX package gives: the style's error, else the error of
/// collecting the section items, else the archive of the package's files: it is
/// given exactly when packing the files succeeds, which it does unless some file's
/// contents pass `MAX_PACKED_ENTRY_BYTES`.
pub open spec fn hwpx_result_holds(r: Result<Vec<u8>, CoreRsError>, blocks: Seq<BlockV>, options: HwpxOptions, parts: HwpxPackageParts) -> bool {
    match spec_resolve_style(options.style) {
        Err(e) => r matches Err(x) && x@ == e,
        Ok(st) => match spec_section_and_preview(blocks, options.strict_mode, spec_profile(blocks, st), st, parts.compat_sections) {
            Err(e) => r matches Err(x) && x@ == e,
            Ok(x) => match r {
                Ok(b) => b@ == spec_zip_bytes(spec_entries_with(parts, blocks, st, x.0, x.1, x.2))
                    && spec_packs(spec_entries_with(parts, blocks, st, x.0, x.1, x.2))
                    && reads_back(b@, spec_entries_with(parts, blocks, st, x.0, x.1, x.2)),
                Err(e) => e@.kind == ErrorKind::Zip && !contents_fit(spec_entries_with(parts, blocks, st, x.0, x.1, x.2))
                    && !spec_packs(spec_entries_with(parts, blocks, st, x.0, x.1, x.2)),
            },
        },
    }
}

/// The section and the preview text of a document, with the caret moved where
/// the preview puts it.
fn section_and_preview(
    document: &Document,
    strict_mode: bool,
    profile: CompatibilityProfile,
    style: &ResolvedHwpxStyle,
    templates: &CompatSectionTemplates,
    caret: &mut CaretPosition,
) -> (r: Result<(String, String), CoreRsError>)
    ensures
        match spec_section_and_preview(document@, strict_mode, profile, style@, *templates) {
            Ok(x) => r matches Ok(y) && y.0@ == x.0 && y.1@ == x.1 && final(caret).para_id_ref == x.2.0
                && final(caret).pos == x.2.1,
            Err(e) => r matches Err(y) && y@ == e,
        },
{
    if profile == CompatibilityProfile::LegacyDefault {
        let section = build_section_xml(document, strict_mode, style)?;
        let preview = build_preview_text(document, strict_mode, caret)?;
        Ok((section, preview))
    } else {
        let section = build_compat_section_xml(document, profile, style, templates)?;
        let preview = build_compat_preview_text(document, profile, style, templates, caret)?;
        Ok((section, preview))
    }
}

/// Generates HWPX packages.
pub struct HwpxGenerator {
    pub options: HwpxOptions,
    pub parts: HwpxPackageParts,
}

impl HwpxGenerator {
    pub fn new(options: HwpxOptions, parts: HwpxPackageParts) -> (g: HwpxGenerator)
        ensures
            g.options == options,
            g.parts == parts,
    {
        HwpxGenerator { options, parts }
    }

    /// The HWPX package of a document.
    #[verifier::rlimit(100)]
    pub fn generate(&self, document: &Document) -> (r: Result<Vec<u8>, CoreRsError>)
        ensures
            hwpx_result_holds(r, document@, self.options, self.parts),
    {
        let style = ResolvedHwpxStyle::from_options(&self.options)?;
        let profile = resolve_compatibility_profile(document, &style);
        let header = match header_for_profile(&self.parts.profile_headers, profile) {
            Some(h) => h,
            None => build_header_xml(self.parts.header_template.as_str(), document, &style),
        };
        let mut caret = CaretPosition { para_id_ref: 0, pos: 45 };
        let (section, preview_text) = section_and_preview(document, self.options.strict_mode, profile, &style, &self.parts.compat_sections, &mut caret)?;
        let settings = settings_xml(self.parts.settings_template.as_str(), &caret);
        let image = if profile == CompatibilityProfile::CoreParagraphFixture {
            vstd::slice::slice_to_vec(self.parts.core_paragraph_preview_image.as_slice())
        } else {
            vstd::slice::slice_to_vec(self.parts.preview_image.as_slice())
        };
        let mut entries: Vec<ArchiveEntry> = Vec::new();
        entries.push(ArchiveEntry::new_text("mimetype", owned(mimetype())));
        entries.push(ArchiveEntry::new_text_with_compression("version.xml", self.parts.version_xml.clone(), Compression::Deflated));
        entries.push(ArchiveEntry::new_text_with_compression("Contents/header.xml", header, Compression::Deflated));
        entries.push(ArchiveEntry::new_text_with_compression("Contents/section0.xml", section, Compression::Deflated));
        entries.push(ArchiveEntry::new_text_with_compression("Preview/PrvText.txt", preview_text, Compression::Deflated));
        entries.push(ArchiveEntry::new_text_with_compression("settings.xml", settings, Compression::Deflated));
        entries.push(ArchiveEntry::new_bytes("Preview/PrvImage.png", image));
        entries.push(ArchiveEntry::new_text_with_compression("META-INF/container.rdf", self.parts.container_rdf_xml.clone(), Compression::Deflated));
        entries.push(ArchiveEntry::new_text_with_compression("Contents/content.hpf", self.parts.content_hpf.clone(), Compression::Deflated));
        entries.push(ArchiveEntry::new_text_with_compression("META-INF/container.xml", self.parts.container_xml.clone(), Compression::Deflated));
        entries.push(ArchiveEntry::new_text_with_compression("META-INF/manifest.xml", self.parts.manifest_xml.clone(), Compression::Deflated));
        proof {
            let st = style@;
            let x = spec_section_and_preview(document@, self.options.strict_mode, profile, st, self.parts.compat_sections)->Ok_0;
            assert(entries_view(entries@) =~= spec_entries_with(self.parts, document@, st, x.0, x.1, x.2));
        }
        proof {
            let st = style@;
            let x = spec_section_and_preview(document@, self.options.strict_mode, profile, st, self.parts.compat_sections)->Ok_0;
            lemma_hwpx_entries_pack(
                self.parts,
                package_header(self.parts, document@, st),
                x.0,
                x.1,
                spec_settings_xml(self.parts.settings_template@, x.2.0, x.2.1),
                preview_image_for(self.parts, spec_profile(document@, st)),
            );
        }
        zip_entries_in_order(&entries)
    }
}

} // verus!
