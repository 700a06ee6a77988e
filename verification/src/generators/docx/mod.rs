//! The DOCX generator: the document body, its parts, and the package.
pub mod markup;
pub mod render;
pub mod templates;
pub mod xml_builder;

use vstd::prelude::*;
use crate::error::{CoreRsError, ErrorKind};
use crate::models::block::{BlockV, blocks_view};
use crate::models::document::Document;
use crate::generators::docx::markup::{CtxV, spec_max_heading, spec_render_blocks};
use crate::generators::docx::render::{RenderContext, max_heading_level, render_blocks, ImageAssetV};
use crate::generators::docx::templates::{
    content_types, core_properties, document_relationships, root_relationships, spec_content_types,
    spec_core_properties, spec_document_relationships, spec_root_relationships, spec_styles, styles,
};
use crate::generators::docx::xml_builder::{spec_wrap_document, wrap_document};
use crate::utils::text::owned;
use crate::utils::zip_archiver::{ArchiveEntry, EntryV, entries_view, packable, reads_back, spec_packs, spec_sort_by_path, spec_zip_bytes, zip_entries};
use vstd::utf8::encode_utf8;

verus! {

/// Options of a DOCX conversion.
#[derive(Debug, Clone, PartialEq, Eq)]
pub struct DocxOptions {
    pub title: Option<String>,
    pub author: Option<String>,
    pub strict_mode: bool,
}

impl Default for DocxOptions {
    /// No title or author, strict mode on.
    fn default() -> (o: DocxOptions)
        ensures
            o.title is None,
            o.author is None,
            o.strict_mode,
    {
        DocxOptions { title: None, author: None, strict_mode: true }
    }
}

/// A text entry, stored.
pub open spec fn text_entry(path: Seq<char>, text: Seq<char>) -> EntryV {
    (path, encode_utf8(text), false)
}

pub open spec fn image_entries(images: Seq<ImageAssetV>) -> Seq<EntryV> {
    Seq::new(images.len(), |k: int| (images[k].target, images[k].data, false))
}

/// The files of a DOCX package, before they are sorted by path.
pub open spec fn spec_docx_entries(blocks: Seq<BlockV>, title: Seq<char>, author: Seq<char>, body: Seq<char>, ctx: CtxV) -> Seq<EntryV> {
    seq![
        text_entry("[Content_Types].xml"@, spec_content_types(ctx.images)),
        text_entry("_rels/.rels"@, spec_root_relationships()),
        text_entry("docProps/core.xml"@, spec_core_properties(title, author)),
        text_entry("word/document.xml"@, spec_wrap_document(body)),
        text_entry("word/_rels/document.xml.rels"@, spec_document_relationships(ctx.links, ctx.images)),
        text_entry("word/styles.xml"@, spec_styles(spec_max_heading(blocks))),
    ] + image_entries(ctx.images)
}

pub open spec fn or_default(o: Option<Seq<char>>, d: Seq<char>) -> Seq<char> {
    match o {
        Some(s) => s,
        None => d,
    }
}

/// What generating a DOCX package gives: the rendering error, or the archive of the
/// package's files sorted by path, given exactly when packing them succeeds, which
/// it does whenever they pack with certainty.
pub open spec fn docx_result_holds(r: Result<Vec<u8>, CoreRsError>, blocks: Seq<BlockV>, title: Option<Seq<char>>, author: Option<Seq<char>>) -> bool {
    match spec_render_blocks(blocks, CtxV { links: seq![], images: seq![] }) {
        Err(e) => r matches Err(x) && x@ == e,
        Ok((body, ctx)) => {
            let entries = spec_sort_by_path(
                spec_docx_entries(blocks, or_default(title, "Untitled"@), or_default(author, "docxly"@), body, ctx),
            );
            match r {
                Ok(b) => b@ == spec_zip_bytes(entries) && spec_packs(entries) && reads_back(b@, entries),
                Err(x) => x@.kind == ErrorKind::Zip && !packable(entries) && !spec_packs(entries),
            }
        },
    }
}

pub open spec fn opt_string_view(o: Option<String>) -> Option<Seq<char>> {
    match o {
        Some(s) => Some(s@),
        None => None,
    }
}

/// Generates DOCX packages.
pub struct DocxGenerator {
    pub options: DocxOptions,
}

impl DocxGenerator {
    pub fn new(options: DocxOptions) -> (g: DocxGenerator)
        ensures
            g.options == options,
    {
        DocxGenerator { options }
    }

    /// The DOCX package of a document.
    pub fn generate(&self, document: &Document) -> (r: Result<Vec<u8>, CoreRsError>)
        ensures
            docx_result_holds(r, document@, opt_string_view(self.options.title), opt_string_view(self.options.author)),
    {
        let mut context = RenderContext::new();
        let body = render_blocks(&document.blocks, &mut context)?;
        let max_level = max_heading_level(&document.blocks);
        let title = match &self.options.title {
            Some(t) => t.as_str(),
            None => "Untitled",
        };
        let author = match &self.options.author {
            Some(a) => a.as_str(),
            None => "docxly",
        };
        let mut entries: Vec<ArchiveEntry> = Vec::new();
        entries.push(ArchiveEntry::new_text("[Content_Types].xml", content_types(&context.images)));
        entries.push(ArchiveEntry::new_text("_rels/.rels", root_relationships()));
        entries.push(ArchiveEntry::new_text("docProps/core.xml", core_properties(title, author)));
        entries.push(ArchiveEntry::new_text("word/document.xml", wrap_document(body.as_str())));
        entries.push(ArchiveEntry::new_text(
            "word/_rels/document.xml.rels",
            document_relationships(&context.hyperlinks, &context.images),
        ));
        entries.push(ArchiveEntry::new_text("word/styles.xml", styles(max_level)));
        let ghost head = entries_view(entries@);
        let ghost imgs = context@.images;
        let mut i: usize = 0;
        while i < context.images.len()
            invariant
                i <= context.images.len(),
                imgs == context@.images,
                entries_view(entries@) == head + image_entries(imgs.take(i as int)),
            decreases context.images.len() - i,
        {
            let data = vstd::slice::slice_to_vec(context.images[i].data.as_slice());
            let ghost prev = entries_view(entries@);
            let entry = ArchiveEntry::new_bytes(context.images[i].target.as_str(), data);
            entries.push(entry);
            assert(imgs[i as int] == context.images@[i as int]@);
            assert(entries_view(entries@) =~= prev.push(entry@));
            assert(image_entries(imgs.take(i + 1)) =~= image_entries(imgs.take(i as int)).push((imgs[i as int].target, imgs[i as int].data, false)));
            assert(entries_view(entries@) =~= head + image_entries(imgs.take(i + 1)));
            i += 1;
        }
        assert(imgs.take(imgs.len() as int) == imgs);
        assert(entries_view(entries@) =~= spec_docx_entries(
            document@,
            or_default(opt_string_view(self.options.title), "Untitled"@),
            or_default(opt_string_view(self.options.author), "docxly"@),
            body@,
            context@,
        ));
        zip_entries(entries)
    }
}

} // verus!
