//! Inline content of a document.
use vstd::prelude::*;

verus! {

#[derive(Debug, PartialEq, Eq)]
pub struct ImageData {
    pub alt: String,
    pub title: Option<String>,
    pub mime_type: String,
    pub extension: String,
    pub data: Vec<u8>,
}

#[derive(Debug, PartialEq, Eq)]
pub enum Inline {
    Text(String),
    Emphasis(Vec<Inline>),
    Strong(Vec<Inline>),
    Code(String),
    Link { text: Vec<Inline>, url: String },
    Image(ImageData),
    HardBreak,
}

pub struct ImageDataV {
    pub alt: Seq<char>,
    pub title: Option<Seq<char>>,
    pub mime_type: Seq<char>,
    pub extension: Seq<char>,
    pub data: Seq<u8>,
}

pub enum InlineV {
    Text(Seq<char>),
    Emphasis(Seq<InlineV>),
    Strong(Seq<InlineV>),
    Code(Seq<char>),
    Link { text: Seq<InlineV>, url: Seq<char> },
    Image(ImageDataV),
    HardBreak,
}

pub open spec fn opt_str_view(o: Option<String>) -> Option<Seq<char>> {
    match o {
        Some(s) => Some(s@),
        None => None,
    }
}

impl View for ImageData {
    type V = ImageDataV;

    open spec fn view(&self) -> ImageDataV {
        ImageDataV {
            alt: self.alt@,
            title: opt_str_view(self.title),
            mime_type: self.mime_type@,
            extension: self.extension@,
            data: self.data@,
        }
    }
}

pub open spec fn inline_view(i: Inline) -> InlineV
    decreases i, 1int,
{
    match i {
        Inline::Text(s) => InlineV::Text(s@),
        Inline::Emphasis(v) => InlineV::Emphasis(inlines_view(v@)),
        Inline::Strong(v) => InlineV::Strong(inlines_view(v@)),
        Inline::Code(s) => InlineV::Code(s@),
        Inline::Link { text, url } => InlineV::Link { text: inlines_view(text@), url: url@ },
        Inline::Image(d) => InlineV::Image(d@),
        Inline::HardBreak => InlineV::HardBreak,
    }
}

pub open spec fn inlines_view(s: Seq<Inline>) -> Seq<InlineV>
    decreases s, 0int,
{
    if s.len() == 0 {
        Seq::empty()
    } else {
        inlines_view(s.drop_last()).push(inline_view(s.last()))
    }
}

proof fn lemma_inlines_view_all(s: Seq<Inline>)
    ensures
        inlines_view(s).len() == s.len(),
        forall|k: int| 0 <= k < s.len() ==> #[trigger] inlines_view(s)[k] == inline_view(s[k]),
    decreases s.len(),
{
    if s.len() > 0 {
        lemma_inlines_view_all(s.drop_last());
    }
}

/// Length of the view of a sequence of inlines.
pub broadcast proof fn lemma_inlines_view_len(s: Seq<Inline>)
    ensures
        #[trigger] inlines_view(s).len() == s.len(),
{
    lemma_inlines_view_all(s);
}

/// Indexing into the view of a sequence of inlines.
pub broadcast proof fn lemma_inlines_view(s: Seq<Inline>, k: int)
    requires
        0 <= k < s.len(),
    ensures
        #[trigger] inlines_view(s)[k] == inline_view(s[k]),
{
    lemma_inlines_view_all(s);
}

/// Appending to a sequence of inlines appends to its view.
pub broadcast proof fn lemma_inlines_view_push(s: Seq<Inline>, i: Inline)
    ensures
        #[trigger] inlines_view(s.push(i)) == inlines_view(s).push(inline_view(i)),
{
    assert(s.push(i).drop_last() == s);
}

impl View for Inline {
    type V = InlineV;

    open spec fn view(&self) -> InlineV {
        inline_view(*self)
    }
}

} // verus!
