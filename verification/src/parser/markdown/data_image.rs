//! Images embedded as `data:` URIs.
use vstd::prelude::*;
use base64::Engine;
use base64::engine::general_purpose::STANDARD as BASE64_STANDARD;
use crate::error::{CoreRsError, ErrorKind, ErrorV, err};
use crate::utils::text::{
    chars_of, owned, string_of, str_eq, matches_at, find_from, ascii_lower_range, substring,
    utf8_len_range, spec_find_from, spec_ascii_lower, spec_starts_with, spec_utf8_len,
};

verus! {

/// The largest embedded image, in bytes.
pub const MAX_DATA_URI_IMAGE_BYTES: usize = 8388608;

/// Whether an image fallback is for an oversized image.
#[derive(Debug, Clone, Copy, PartialEq, Eq, Structural)]
pub enum ImageFallbackKind {
    Generic,
    Oversized,
}

/// Why an image URL could not be embedded.
#[derive(Debug, PartialEq, Eq)]
pub enum DataImageError {
    NotDataUrl,
    InvalidDataUri,
    NonBase64,
    UnsupportedMime { mime_type: String },
    InvalidBase64,
    TooLarge { message: String },
}

pub enum DataImageErrorV {
    NotDataUrl,
    InvalidDataUri,
    NonBase64,
    UnsupportedMime(Seq<char>),
    InvalidBase64,
    TooLarge(Seq<char>),
}

impl View for DataImageError {
    type V = DataImageErrorV;

    open spec fn view(&self) -> DataImageErrorV {
        match self {
            DataImageError::NotDataUrl => DataImageErrorV::NotDataUrl,
            DataImageError::InvalidDataUri => DataImageErrorV::InvalidDataUri,
            DataImageError::NonBase64 => DataImageErrorV::NonBase64,
            DataImageError::UnsupportedMime { mime_type } => DataImageErrorV::UnsupportedMime(mime_type@),
            DataImageError::InvalidBase64 => DataImageErrorV::InvalidBase64,
            DataImageError::TooLarge { message } => DataImageErrorV::TooLarge(message@),
        }
    }
}

pub open spec fn spec_fallback_kind(e: DataImageErrorV) -> ImageFallbackKind {
    match e {
        DataImageErrorV::TooLarge(_) => ImageFallbackKind::Oversized,
        _ => ImageFallbackKind::Generic,
    }
}

/// The library error that an image error becomes.
pub open spec fn spec_into_core_error(e: DataImageErrorV) -> ErrorV {
    match e {
        DataImageErrorV::NotDataUrl => err(ErrorKind::UnsupportedFeature, "image"@),
        DataImageErrorV::InvalidDataUri => err(ErrorKind::InvalidMarkdown, "invalid data URI image"@),
        DataImageErrorV::NonBase64 => err(ErrorKind::UnsupportedFeature, "non-base64 data URI image"@),
        DataImageErrorV::UnsupportedMime(m) => err(
            ErrorKind::UnsupportedFeature,
            "unsupported image mime type: "@ + m,
        ),
        DataImageErrorV::InvalidBase64 => err(ErrorKind::InvalidMarkdown, "invalid base64 image data"@),
        DataImageErrorV::TooLarge(m) => err(ErrorKind::UnsupportedFeature, m),
    }
}

impl DataImageError {
    pub fn fallback_kind(&self) -> (k: ImageFallbackKind)
        ensures
            k == spec_fallback_kind(self@),
    {
        match self {
            DataImageError::TooLarge { .. } => ImageFallbackKind::Oversized,
            _ => ImageFallbackKind::Generic,
        }
    }

    pub fn into_core_error(self) -> (e: CoreRsError)
        ensures
            e@ == spec_into_core_error(self@),
    {
        match self {
            DataImageError::NotDataUrl => CoreRsError::from_str_detail(ErrorKind::UnsupportedFeature, "image"),
            DataImageError::InvalidDataUri => CoreRsError::from_str_detail(
                ErrorKind::InvalidMarkdown,
                "invalid data URI image",
            ),
            DataImageError::NonBase64 => CoreRsError::from_str_detail(
                ErrorKind::UnsupportedFeature,
                "non-base64 data URI image",
            ),
            DataImageError::UnsupportedMime { mime_type } => {
                let mut m = owned("unsupported image mime type: ");
                m.append(mime_type.as_str());
                CoreRsError::new(ErrorKind::UnsupportedFeature, m)
            },
            DataImageError::InvalidBase64 => CoreRsError::from_str_detail(
                ErrorKind::InvalidMarkdown,
                "invalid base64 image data",
            ),
            DataImageError::TooLarge { message } => CoreRsError::new(ErrorKind::UnsupportedFeature, message),
        }
    }
}

/// The text shown in place of an image that could not be embedded: its alt text,
/// or else a placeholder for a data URI, or else the URL itself.
pub open spec fn spec_image_fallback_text(alt: Seq<char>, url: Seq<char>, kind: ImageFallbackKind) -> Seq<char> {
    if alt.len() == 0 {
        if spec_starts_with(url, "data:"@) {
            match kind {
                ImageFallbackKind::Oversized => "[image omitted]"@,
                ImageFallbackKind::Generic => "[data image]"@,
            }
        } else {
            url
        }
    } else {
        alt
    }
}

pub fn image_fallback_text(alt_text: &str, url: &str, kind: ImageFallbackKind) -> (t: String)
    ensures
        t@ == spec_image_fallback_text(alt_text@, url@, kind),
{
    if alt_text.is_empty() {
        if crate::utils::text::starts_with(url, "data:") {
            match kind {
                ImageFallbackKind::Oversized => owned("[image omitted]"),
                ImageFallbackKind::Generic => owned("[data image]"),
            }
        } else {
            owned(url)
        }
    } else {
        owned(alt_text)
    }
}

/// The bytes that standard base64 (with padding) decodes a text to, if it is valid.
pub uninterp spec fn spec_base64_decode(payload: Seq<char>) -> Option<Seq<u8>>;

/// Decodes standard base64.
///
/// Trusted: calls `base64::engine::general_purpose::STANDARD.decode`; the contract
/// names the result, which depends on the text alone.
#[verifier::external_body]
fn base64_decode(payload: &str) -> (r: Option<Vec<u8>>)
    ensures
        match spec_base64_decode(payload@) {
            Some(d) => r matches Some(v) && v@ == d,
            None => r is None,
        },
{
    BASE64_STANDARD.decode(payload).ok()
}

/// Whether some `;`-separated segment of `m` starting at `from` is `base64`, ignoring ASCII case.
pub open spec fn spec_has_base64_segment(m: Seq<char>, from: int) -> bool
    decreases m.len() - from,
{
    if from < 0 || from > m.len() {
        false
    } else {
        match spec_find_from(m, from, ';') {
            None => spec_ascii_lower(m.subrange(from, m.len() as int)) == "base64"@,
            Some(j) => {
                proof {
                    lemma_find_from_range(m, from, ';');
                }
                spec_ascii_lower(m.subrange(from, j)) == "base64"@ || spec_has_base64_segment(m, j + 1)
            },
        }
    }
}

pub proof fn lemma_find_from_range(s: Seq<char>, from: int, c: char)
    ensures
        spec_find_from(s, from, c) matches Some(k) ==> from <= k < s.len() && s[k] == c,
    decreases s.len() - from,
{
    if 0 <= from < s.len() && s[from] != c {
        lemma_find_from_range(s, from + 1, c);
    }
}

/// The media type of the metadata part of a data URI: its first segment, lower-cased.
pub open spec fn spec_mime(m: Seq<char>) -> Seq<char> {
    match spec_find_from(m, 0, ';') {
        None => spec_ascii_lower(m),
        Some(i) => spec_ascii_lower(m.take(i)),
    }
}

/// Whether the parameters of the metadata part include `base64`.
pub open spec fn spec_has_base64_param(m: Seq<char>) -> bool {
    match spec_find_from(m, 0, ';') {
        None => false,
        Some(i) => spec_has_base64_segment(m, i + 1),
    }
}

pub open spec fn spec_extension(mime: Seq<char>) -> Option<Seq<char>> {
    if mime == "image/png"@ {
        Some("png"@)
    } else if mime == "image/jpeg"@ || mime == "image/jpg"@ {
        Some("jpg"@)
    } else if mime == "image/gif"@ {
        Some("gif"@)
    } else {
        None
    }
}

/// The message of an image that exceeds the size limit.
pub open spec fn too_large_message() -> Seq<char> {
    "image exceeds maximum supported size of 8388608 bytes"@
}

/// A data URI decoded: `data:<mime>[;params],<base64 payload>` with a supported image
/// type gives the media type, the file extension and the decoded bytes.
pub open spec fn spec_parse_data_uri(url: Seq<char>) -> Result<(Seq<char>, Seq<char>, Seq<u8>), DataImageErrorV> {
    if !spec_starts_with(url, "data:"@) {
        Err(DataImageErrorV::NotDataUrl)
    } else {
        match spec_find_from(url, 5, ',') {
            None => Err(DataImageErrorV::InvalidDataUri),
            Some(c) => {
                let m = url.subrange(5, c);
                let payload = url.subrange(c + 1, url.len() as int);
                let mime = spec_mime(m);
                if !spec_has_base64_param(m) {
                    Err(DataImageErrorV::NonBase64)
                } else {
                    match spec_extension(mime) {
                        None => Err(DataImageErrorV::UnsupportedMime(mime)),
                        Some(ext) => {
                            let bytes = spec_utf8_len(payload);
                            if (bytes + 3) / 4 * 3 > MAX_DATA_URI_IMAGE_BYTES {
                                Err(DataImageErrorV::TooLarge(too_large_message()))
                            } else {
                                match spec_base64_decode(payload) {
                                    None => Err(DataImageErrorV::InvalidBase64),
                                    Some(data) => if data.len() > MAX_DATA_URI_IMAGE_BYTES {
                                        Err(DataImageErrorV::TooLarge(too_large_message()))
                                    } else {
                                        Ok((mime, ext, data))
                                    },
                                }
                            }
                        },
                    }
                }
            },
        }
    }
}

fn has_base64_segment(m: &Vec<char>, from: usize) -> (b: bool)
    requires
        from <= m.len(),
    ensures
        b == spec_has_base64_segment(m@, from as int),
    decreases m.len() - from,
{
    let b64 = chars_of("base64");
    proof { lemma_find_from_range(m@, from as int, ';'); }
    let found = find_from(m, from, ';');
    let end = match found {
        None => m.len(),
        Some(j) => j,
    };
    let seg = ascii_lower_range(m, from, end);
    let here = mime_is(&seg, "base64");
    if here {
        true
    } else {
        match found {
            None => false,
            Some(j) => has_base64_segment(m, j + 1),
        }
    }
}

fn mime_is(mime: &Vec<char>, name: &str) -> (b: bool)
    ensures
        b == (mime@ == name@),
{
    let n = chars_of(name);
    if mime.len() != n.len() {
        return false;
    }
    let r = matches_at(mime, &n, 0);
    assert(mime@.subrange(0, n@.len() as int) == mime@);
    r
}

/// Decodes an image given as a data URI into its media type, file extension and bytes.
pub fn parse_data_uri(url: &str) -> (r: Result<(String, String, Vec<u8>), DataImageError>)
    ensures
        match spec_parse_data_uri(url@) {
            Ok((mime, ext, data)) => r matches Ok((m, e, d)) && m@ == mime && e@ == ext && d@ == data,
            Err(x) => r matches Err(y) && y@ == x,
        },
{
    let cs = chars_of(url);
    let prefix = chars_of("data:");
    if !matches_at(&cs, &prefix, 0) {
        return Err(DataImageError::NotDataUrl);
    }
    proof {
        assert(url@.subrange(0, prefix@.len() as int) == prefix@);
        reveal_strlit("data:");
    }
    proof { lemma_find_from_range(url@, 5, ','); }
    let c = match find_from(&cs, 5, ',') {
        None => return Err(DataImageError::InvalidDataUri),
        Some(c) => c,
    };
    let ghost m_spec = url@.subrange(5, c as int);
    let mut m: Vec<char> = Vec::new();
    let mut i: usize = 5;
    while i < c
        invariant
            5 <= i <= c < cs.len(),
            cs@ == url@,
            m@ == cs@.subrange(5, i as int),
        decreases c - i,
    {
        m.push(cs[i]);
        i += 1;
        assert(m@ =~= cs@.subrange(5, i as int));
    }
    proof { lemma_find_from_range(m@, 0, ';'); }
    let first = find_from(&m, 0, ';');
    let mime_chars = match first {
        None => ascii_lower_range(&m, 0, m.len()),
        Some(k) => ascii_lower_range(&m, 0, k),
    };
    proof {
        assert(m@.subrange(0, m@.len() as int) == m@);
        if let Some(k) = first {
            assert(m@.subrange(0, k as int) == m@.take(k as int));
        }
    }
    let has_b64 = match first {
        None => false,
        Some(k) => has_base64_segment(&m, k + 1),
    };
    if !has_b64 {
        return Err(DataImageError::NonBase64);
    }
    let mime = string_of(mime_chars.as_slice());
    let extension = if mime_is(&mime_chars, "image/png") {
        owned("png")
    } else if mime_is(&mime_chars, "image/jpeg") || mime_is(&mime_chars, "image/jpg") {
        owned("jpg")
    } else if mime_is(&mime_chars, "image/gif") {
        owned("gif")
    } else {
        return Err(DataImageError::UnsupportedMime { mime_type: mime });
    };
    let bytes = utf8_len_range(&cs, c + 1, cs.len());
    let quarter = bytes / 4 + if bytes % 4 != 0 { 1 } else { 0 };
    if quarter > MAX_DATA_URI_IMAGE_BYTES / 3 {
        proof {
            let b = spec_utf8_len(url@.subrange(c + 1, url@.len() as int));
            assert((b + 3) / 4 * 3 > MAX_DATA_URI_IMAGE_BYTES) by (nonlinear_arith)
                requires
                    quarter == (if b > usize::MAX { usize::MAX as nat } else { b }) / 4 + if (if b > usize::MAX { usize::MAX as nat } else { b }) % 4 != 0 { 1int } else { 0int },
                    quarter > MAX_DATA_URI_IMAGE_BYTES / 3,
            ;
        }
        return Err(DataImageError::TooLarge { message: owned("image exceeds maximum supported size of 8388608 bytes") });
    }
    proof {
        let b = spec_utf8_len(url@.subrange(c + 1, url@.len() as int));
        assert(!((b + 3) / 4 * 3 > MAX_DATA_URI_IMAGE_BYTES)) by (nonlinear_arith)
            requires
                quarter == (if b > usize::MAX { usize::MAX as nat } else { b }) / 4 + if (if b > usize::MAX { usize::MAX as nat } else { b }) % 4 != 0 { 1int } else { 0int },
                quarter <= MAX_DATA_URI_IMAGE_BYTES / 3,
        ;
    }
    let payload = substring(&cs, c + 1, cs.len());
    let data = match base64_decode(payload.as_str()) {
        None => return Err(DataImageError::InvalidBase64),
        Some(d) => d,
    };
    if data.len() > MAX_DATA_URI_IMAGE_BYTES {
        return Err(DataImageError::TooLarge { message: owned("image exceeds maximum supported size of 8388608 bytes") });
    }
    Ok((mime, extension, data))
}

} // verus!
