//! HWPX style options and their validated, resolved form.
use vstd::prelude::*;
use crate::error::{CoreRsError, ErrorKind, ErrorV, err};
use crate::utils::text::{
    ascii_lower_range, chars_of, decimal, decimal_string, owned, push_char, spec_ascii_lower, spec_trim, str_eq,
    string_of, trim,
};

verus! {

/// Paragraph alignment of body text.
#[derive(Debug, Clone, Copy, PartialEq, Eq, Structural)]
pub enum HwpxParagraphAlign {
    Left,
    Center,
    Right,
    Justify,
}

/// Optional overrides of the HWPX document style.
#[derive(Debug, Clone, PartialEq, Eq)]
pub struct HwpxStyleOptions {
    pub body_font: Option<String>,
    pub heading_font: Option<String>,
    pub body_font_size: Option<u32>,
    pub heading_font_size: Option<u32>,
    pub text_color: Option<String>,
    pub heading_color: Option<String>,
    pub link_color: Option<String>,
    pub paragraph_align: Option<HwpxParagraphAlign>,
}

impl Default for HwpxStyleOptions {
    /// No overrides.
    fn default() -> (o: HwpxStyleOptions)
        ensures
            o.body_font is None && o.heading_font is None && o.body_font_size is None && o.heading_font_size is None
                && o.text_color is None && o.heading_color is None && o.link_color is None && o.paragraph_align is None,
    {
        HwpxStyleOptions {
            body_font: None,
            heading_font: None,
            body_font_size: None,
            heading_font_size: None,
            text_color: None,
            heading_color: None,
            link_color: None,
            paragraph_align: None,
        }
    }
}

/// Options of an HWPX conversion.
#[derive(Debug, Clone, PartialEq, Eq)]
pub struct HwpxOptions {
    pub title: Option<String>,
    pub author: Option<String>,
    pub strict_mode: bool,
    pub style: HwpxStyleOptions,
}

impl Default for HwpxOptions {
    /// No title or author, strict mode on, no style overrides.
    fn default() -> (o: HwpxOptions)
        ensures
            o.title is None && o.author is None && o.strict_mode,
            o.style.body_font is None && o.style.heading_font is None && o.style.body_font_size is None
                && o.style.heading_font_size is None && o.style.text_color is None && o.style.heading_color is None
                && o.style.link_color is None && o.style.paragraph_align is None,
    {
        HwpxOptions { title: None, author: None, strict_mode: true, style: HwpxStyleOptions::default() }
    }
}

/// The style of an HWPX document with every option validated and defaulted.
#[derive(Debug, Clone)]
pub struct ResolvedHwpxStyle {
    pub body_font: String,
    pub heading_font: String,
    pub body_font_size: u32,
    pub heading_sizes: [u32; 4],
    pub text_color: String,
    pub heading_colors: [String; 4],
    pub link_color: String,
    pub paragraph_align: &'static str,
    pub custom_body_font: bool,
    pub custom_heading_font: bool,
    pub custom_body_font_size: bool,
    pub custom_heading_font_size: bool,
    pub custom_text_color: bool,
    pub custom_heading_color: bool,
    pub custom_link_color: bool,
    pub custom_paragraph_align: bool,
}

pub const MIN_FONT_SIZE: u32 = 600;
pub const MAX_FONT_SIZE: u32 = 4000;

/// Whether a character is a control character (Unicode category Cc).
pub open spec fn spec_is_control(c: char) -> bool {
    (c as u32) <= 0x1F || (0x7F <= (c as u32) && (c as u32) <= 0x9F)
}

/// A font name: trimmed; it must be non-empty and hold no control character.
pub open spec fn spec_validate_font_name(value: Seq<char>) -> Result<Seq<char>, ErrorV> {
    let t = spec_trim(value);
    if t.len() > 0 && (forall|i: int| 0 <= i < t.len() ==> !spec_is_control(#[trigger] t[i])) {
        Ok(t)
    } else {
        Err(err(ErrorKind::InvalidOption, "HWPX font names must be non-empty plain text, got `"@ + value + "`"@))
    }
}

/// A font size in hundredths of a point, between 600 and 4000.
pub open spec fn spec_validate_font_size(value: u32) -> Result<u32, ErrorV> {
    if MIN_FONT_SIZE <= value <= MAX_FONT_SIZE {
        Ok(value)
    } else {
        Err(err(
            ErrorKind::InvalidOption,
            "HWPX font sizes must be between 600 and 4000, got `"@ + decimal(value as nat) + "`"@,
        ))
    }
}

/// The uppercase form of a text, as `str::to_uppercase` gives it (Unicode's
/// uppercase mapping).
pub uninterp spec fn spec_to_uppercase(s: Seq<char>) -> Seq<char>;

/// ASCII upper-casing of one character.
pub open spec fn spec_ascii_upper_char(c: char) -> char {
    if 'a' <= c && c <= 'z' { ((c as u32) - 32) as char } else { c }
}

/// The uppercase form of a text.
///
/// Trusted: calls `str::to_uppercase`; the result is named, as it depends on the
/// text alone. For ASCII text, Unicode's uppercase mapping turns `a`..`z` into
/// `A`..`Z` and keeps every other character.
#[verifier::external_body]
fn to_uppercase(s: &str) -> (r: String)
    ensures
        r@ == spec_to_uppercase(s@),
        all_ascii(s@) ==> r@ == Seq::new(
            s@.len(),
            |i: int| spec_ascii_upper_char(s@[i]),
        ),
{
    s.to_uppercase()
}

pub open spec fn is_ascii_hex_digit(c: char) -> bool {
    ('0' <= c && c <= '9') || ('a' <= c && c <= 'f') || ('A' <= c && c <= 'F')
}

/// Every character is ASCII.
pub open spec fn all_ascii(s: Seq<char>) -> bool {
    forall|i: int| 0 <= i < s.len() ==> (#[trigger] s[i] as u32) < 128
}

/// The uppercase form of a text: for ASCII text, `a`..`z` made `A`..`Z`; for
/// other text, Unicode's uppercase mapping.
pub open spec fn spec_uppercase(s: Seq<char>) -> Seq<char> {
    if all_ascii(s) {
        Seq::new(s.len(), |i: int| spec_ascii_upper_char(s[i]))
    } else {
        spec_to_uppercase(s)
    }
}

/// A color: trimmed, uppercased, with a leading `#`; it must then be `#` and six
/// hexadecimal digits.
pub open spec fn spec_normalized_color(value: Seq<char>) -> Seq<char> {
    let t = spec_trim(value);
    if t.len() > 0 && t[0] == '#' {
        spec_uppercase(t)
    } else {
        seq!['#'] + spec_uppercase(t)
    }
}

pub open spec fn spec_validate_color(value: Seq<char>) -> Result<Seq<char>, ErrorV> {
    let n = spec_normalized_color(value);
    if n.len() == 7 && n[0] == '#' && (forall|i: int| 1 <= i < 7 ==> is_ascii_hex_digit(#[trigger] n[i])) {
        Ok(n)
    } else {
        Err(err(ErrorKind::InvalidOption, "HWPX color values must be 6-digit hex, got `"@ + spec_trim(value) + "`"@))
    }
}

/// The heading sizes for levels one to four: the first heading size, then 100
/// less per level, never below the body size.
pub open spec fn spec_heading_sizes(h1: u32, body: u32) -> Seq<u32> {
    let h2 = if h1 >= 100 { (h1 - 100) as u32 } else { 0u32 };
    let h3 = if h1 >= 200 { (h1 - 200) as u32 } else { 0u32 };
    let h4 = if h1 >= 300 { (h1 - 300) as u32 } else { 0u32 };
    seq![h1, if h2 >= body { h2 } else { body }, if h3 >= body { h3 } else { body }, if h4 >= body { h4 } else { body }]
}

fn is_control(c: char) -> (b: bool)
    ensures
        b == spec_is_control(c),
{
    let v = c as u32;
    v <= 0x1F || (0x7F <= v && v <= 0x9F)
}

/// A font name: trimmed; it must be non-empty and hold no control character.
pub fn validate_font_name(value: &str) -> (r: Result<String, CoreRsError>)
    ensures
        match spec_validate_font_name(value@) {
            Ok(n) => r matches Ok(x) && x@ == n,
            Err(e) => r matches Err(x) && x@ == e,
        },
{
    let trimmed = trim(value);
    let cs = chars_of(trimmed.as_str());
    let mut ok = cs.len() > 0;
    let mut i: usize = 0;
    while i < cs.len()
        invariant
            i <= cs.len(),
            cs@ == trimmed@,
            ok == (cs@.len() > 0 && forall|j: int| 0 <= j < i ==> !spec_is_control(#[trigger] cs@[j])),
        decreases cs.len() - i,
    {
        if is_control(cs[i]) {
            ok = false;
        }
        i += 1;
    }
    if ok {
        Ok(trimmed)
    } else {
        let mut m = owned("HWPX font names must be non-empty plain text, got `");
        m.append(value);
        m.append("`");
        Err(CoreRsError::new(ErrorKind::InvalidOption, m))
    }
}

/// A font size in hundredths of a point, between 600 and 4000.
pub fn validate_font_size(value: u32) -> (r: Result<u32, CoreRsError>)
    ensures
        match spec_validate_font_size(value) {
            Ok(n) => r == Ok::<u32, CoreRsError>(n),
            Err(e) => r matches Err(x) && x@ == e,
        },
{
    if MIN_FONT_SIZE <= value && value <= MAX_FONT_SIZE {
        Ok(value)
    } else {
        let mut m = owned("HWPX font sizes must be between 600 and 4000, got `");
        let digits = decimal_string(value as u64);
        m.append(digits.as_str());
        m.append("`");
        Err(CoreRsError::new(ErrorKind::InvalidOption, m))
    }
}

/// A color as `#` and six uppercase hexadecimal digits.
pub fn validate_and_normalize_color(value: &str) -> (r: Result<String, CoreRsError>)
    ensures
        match spec_validate_color(value@) {
            Ok(n) => r matches Ok(x) && x@ == n,
            Err(e) => r matches Err(x) && x@ == e,
        },
{
    let trimmed = trim(value);
    let tc = chars_of(trimmed.as_str());
    let upper = to_uppercase(trimmed.as_str());
    assert(upper@ =~= spec_uppercase(trimmed@));
    let normalized = if tc.len() > 0 && tc[0] == '#' {
        upper
    } else {
        let mut n = String::new();
        push_char(&mut n, '#');
        n.append(upper.as_str());
        n
    };
    assert(normalized@ =~= spec_normalized_color(value@));
    let nc = chars_of(normalized.as_str());
    let mut ok = nc.len() == 7 && nc[0] == '#';
    let mut i: usize = 1;
    while i < nc.len()
        invariant
            1 <= i,
            nc@ == normalized@,
            ok == (nc@.len() == 7 && nc@[0] == '#' && forall|j: int| 1 <= j < i && j < 7 ==> is_ascii_hex_digit(#[trigger] nc@[j])),
        decreases nc.len() - i,
    {
        let c = nc[i];
        if !(('0' <= c && c <= '9') || ('a' <= c && c <= 'f') || ('A' <= c && c <= 'F')) && i < 7 {
            ok = false;
        }
        i += 1;
    }
    if ok {
        Ok(normalized)
    } else {
        let mut m = owned("HWPX color values must be 6-digit hex, got `");
        m.append(trimmed.as_str());
        m.append("`");
        Err(CoreRsError::new(ErrorKind::InvalidOption, m))
    }
}

/// The heading sizes for levels one to four.
pub fn heading_sizes(h1_size: u32, body_size: u32) -> (s: [u32; 4])
    ensures
        s@ == spec_heading_sizes(h1_size, body_size),
{
    let h2 = h1_size.saturating_sub(100);
    let h3 = h1_size.saturating_sub(200);
    let h4 = h1_size.saturating_sub(300);
    let s = [
        h1_size,
        if h2 >= body_size { h2 } else { body_size },
        if h3 >= body_size { h3 } else { body_size },
        if h4 >= body_size { h4 } else { body_size },
    ];
    assert(s@ =~= spec_heading_sizes(h1_size, body_size));
    s
}

pub struct ResolvedStyleV {
    pub body_font: Seq<char>,
    pub heading_font: Seq<char>,
    pub body_font_size: u32,
    pub heading_sizes: Seq<u32>,
    pub text_color: Seq<char>,
    pub heading_colors: Seq<Seq<char>>,
    pub link_color: Seq<char>,
    pub paragraph_align: Seq<char>,
    pub custom: Seq<bool>,
}

impl View for ResolvedHwpxStyle {
    type V = ResolvedStyleV;

    open spec fn view(&self) -> ResolvedStyleV {
        ResolvedStyleV {
            body_font: self.body_font@,
            heading_font: self.heading_font@,
            body_font_size: self.body_font_size,
            heading_sizes: self.heading_sizes@,
            text_color: self.text_color@,
            heading_colors: self.heading_colors@.map_values(|c: String| c@),
            link_color: self.link_color@,
            paragraph_align: self.paragraph_align@,
            custom: seq![
                self.custom_body_font,
                self.custom_heading_font,
                self.custom_body_font_size,
                self.custom_heading_font_size,
                self.custom_text_color,
                self.custom_heading_color,
                self.custom_link_color,
                self.custom_paragraph_align,
            ],
        }
    }
}

pub open spec fn opt_view(o: Option<String>) -> Option<Seq<char>> {
    match o {
        Some(s) => Some(s@),
        None => None,
    }
}

pub open spec fn align_name(a: HwpxParagraphAlign) -> Seq<char> {
    match a {
        HwpxParagraphAlign::Left => "LEFT"@,
        HwpxParagraphAlign::Center => "CENTER"@,
        HwpxParagraphAlign::Right => "RIGHT"@,
        HwpxParagraphAlign::Justify => "JUSTIFY"@,
    }
}

/// An optional value checked by `check`, or the default when absent.
pub open spec fn checked_or<T>(o: Option<T>, check: spec_fn(T) -> Result<T, ErrorV>, default: T) -> Result<T, ErrorV> {
    match o {
        Some(v) => check(v),
        None => Ok(default),
    }
}

/// The resolved style of the options: each option validated (the first invalid one,
/// in the order body font, heading font, body size, heading size, heading color,
/// text color, link color, is the error) or defaulted.
pub open spec fn spec_resolve_style(o: HwpxStyleOptions) -> Result<ResolvedStyleV, ErrorV> {
    let body_font = checked_or(opt_view(o.body_font), |v: Seq<char>| spec_validate_font_name(v), "\u{D568}\u{CD08}\u{B86C}\u{BC14}\u{D0D5}"@);
    let heading_font = checked_or(opt_view(o.heading_font), |v: Seq<char>| spec_validate_font_name(v), "\u{D568}\u{CD08}\u{B86C}\u{B3CB}\u{C6C0}"@);
    let body_size = checked_or(o.body_font_size, |v: u32| spec_validate_font_size(v), 1000u32);
    let h1_size = checked_or(o.heading_font_size, |v: u32| spec_validate_font_size(v), 1400u32);
    let heading_color = match opt_view(o.heading_color) {
        Some(v) => match spec_validate_color(v) {
            Ok(c) => Ok(Some(c)),
            Err(e) => Err(e),
        },
        None => Ok(None),
    };
    let text_color = checked_or(opt_view(o.text_color), |v: Seq<char>| spec_validate_color(v), "#000000"@);
    let link_color = checked_or(opt_view(o.link_color), |v: Seq<char>| spec_validate_color(v), "#0563C1"@);
    if body_font is Err {
        Err(body_font->Err_0)
    } else if heading_font is Err {
        Err(heading_font->Err_0)
    } else if body_size is Err {
        Err(body_size->Err_0)
    } else if h1_size is Err {
        Err(h1_size->Err_0)
    } else if heading_color is Err {
        Err(heading_color->Err_0)
    } else if text_color is Err {
        Err(text_color->Err_0)
    } else if link_color is Err {
        Err(link_color->Err_0)
    } else {
        let hc = heading_color->Ok_0;
        let h1c = match hc { Some(c) => c, None => "#2E74B5"@ };
        let hnc = match hc { Some(c) => c, None => "#1F1F1F"@ };
        Ok(ResolvedStyleV {
            body_font: body_font->Ok_0,
            heading_font: heading_font->Ok_0,
            body_font_size: body_size->Ok_0,
            heading_sizes: spec_heading_sizes(h1_size->Ok_0, body_size->Ok_0),
            text_color: text_color->Ok_0,
            heading_colors: seq![h1c, hnc, hnc, hnc],
            link_color: link_color->Ok_0,
            paragraph_align: align_name(match o.paragraph_align { Some(a) => a, None => HwpxParagraphAlign::Justify }),
            custom: seq![
                o.body_font is Some,
                o.heading_font is Some,
                o.body_font_size is Some,
                o.heading_font_size is Some,
                o.text_color is Some,
                o.heading_color is Some,
                o.link_color is Some,
                o.paragraph_align is Some,
            ],
        })
    }
}

/// Whether no style option was given.
pub open spec fn spec_is_default(s: ResolvedStyleV) -> bool {
    forall|i: int| 0 <= i < 8 ==> !#[trigger] s.custom[i]
}

fn align_str(a: HwpxParagraphAlign) -> (s: &'static str)
    ensures
        s@ == align_name(a),
{
    match a {
        HwpxParagraphAlign::Left => "LEFT",
        HwpxParagraphAlign::Center => "CENTER",
        HwpxParagraphAlign::Right => "RIGHT",
        HwpxParagraphAlign::Justify => "JUSTIFY",
    }
}

fn font_or(value: &Option<String>, default: &str) -> (r: Result<String, CoreRsError>)
    ensures
        match checked_or(opt_view(*value), |v: Seq<char>| spec_validate_font_name(v), default@) {
            Ok(n) => r matches Ok(x) && x@ == n,
            Err(e) => r matches Err(x) && x@ == e,
        },
{
    match value {
        Some(v) => validate_font_name(v.as_str()),
        None => Ok(owned(default)),
    }
}

fn size_or(value: Option<u32>, default: u32) -> (r: Result<u32, CoreRsError>)
    ensures
        match checked_or(value, |v: u32| spec_validate_font_size(v), default) {
            Ok(n) => r == Ok::<u32, CoreRsError>(n),
            Err(e) => r matches Err(x) && x@ == e,
        },
{
    match value {
        Some(v) => validate_font_size(v),
        None => Ok(default),
    }
}

fn color_or(value: &Option<String>, default: &str) -> (r: Result<String, CoreRsError>)
    ensures
        match checked_or(opt_view(*value), |v: Seq<char>| spec_validate_color(v), default@) {
            Ok(n) => r matches Ok(x) && x@ == n,
            Err(e) => r matches Err(x) && x@ == e,
        },
{
    match value {
        Some(v) => validate_and_normalize_color(v.as_str()),
        None => Ok(owned(default)),
    }
}

impl ResolvedHwpxStyle {
    /// Validates the style options and fills in the defaults.
    pub fn from_options(options: &HwpxOptions) -> (r: Result<ResolvedHwpxStyle, CoreRsError>)
        ensures
            match spec_resolve_style(options.style) {
                Ok(s) => r matches Ok(x) && x@ == s,
                Err(e) => r matches Err(x) && x@ == e,
            },
    {
        let o = &options.style;
        let body_font = font_or(&o.body_font, "\u{D568}\u{CD08}\u{B86C}\u{BC14}\u{D0D5}")?;
        let heading_font = font_or(&o.heading_font, "\u{D568}\u{CD08}\u{B86C}\u{B3CB}\u{C6C0}")?;
        let body_font_size = size_or(o.body_font_size, 1000)?;
        let h1_font_size = size_or(o.heading_font_size, 1400)?;
        let heading_color_override = match &o.heading_color {
            Some(v) => Some(validate_and_normalize_color(v.as_str())?),
            None => None,
        };
        let text_color = color_or(&o.text_color, "#000000")?;
        let link_color = color_or(&o.link_color, "#0563C1")?;
        let h1_color = match &heading_color_override {
            Some(c) => c.clone(),
            None => owned("#2E74B5"),
        };
        let hn_color = match &heading_color_override {
            Some(c) => c.clone(),
            None => owned("#1F1F1F"),
        };
        let align = match o.paragraph_align {
            Some(a) => a,
            None => HwpxParagraphAlign::Justify,
        };
        let style = ResolvedHwpxStyle {
            body_font,
            heading_font,
            body_font_size,
            heading_sizes: heading_sizes(h1_font_size, body_font_size),
            text_color,
            heading_colors: [h1_color.clone(), hn_color.clone(), hn_color.clone(), hn_color],
            link_color,
            paragraph_align: align_str(align),
            custom_body_font: o.body_font.is_some(),
            custom_heading_font: o.heading_font.is_some(),
            custom_body_font_size: o.body_font_size.is_some(),
            custom_heading_font_size: o.heading_font_size.is_some(),
            custom_text_color: o.text_color.is_some(),
            custom_heading_color: o.heading_color.is_some(),
            custom_link_color: o.link_color.is_some(),
            custom_paragraph_align: o.paragraph_align.is_some(),
        };
        assert(style@.heading_colors =~= spec_resolve_style(options.style)->Ok_0.heading_colors);
        assert(style@.custom =~= spec_resolve_style(options.style)->Ok_0.custom);
        Ok(style)
    }

    /// Whether no style option was given.
    pub fn is_default(&self) -> (b: bool)
        ensures
            b == spec_is_default(self@),
    {
        let b = !self.custom_body_font && !self.custom_heading_font && !self.custom_body_font_size
            && !self.custom_heading_font_size && !self.custom_text_color && !self.custom_heading_color
            && !self.custom_link_color && !self.custom_paragraph_align;
        proof {
            let c = self@.custom;
            if !b {
                assert(c[0] || c[1] || c[2] || c[3] || c[4] || c[5] || c[6] || c[7]);
            }
        }
        b
    }
}

/// A paragraph alignment by its name in any letter case, or the message that
/// names the (lower-cased) unknown alignment.
pub open spec fn spec_align_by_name(value: Seq<char>) -> Result<HwpxParagraphAlign, Seq<char>> {
    let l = spec_ascii_lower(value);
    if l == "left"@ {
        Ok(HwpxParagraphAlign::Left)
    } else if l == "center"@ {
        Ok(HwpxParagraphAlign::Center)
    } else if l == "right"@ {
        Ok(HwpxParagraphAlign::Right)
    } else if l == "justify"@ {
        Ok(HwpxParagraphAlign::Justify)
    } else {
        Err("invalid HWPX paragraph alignment: "@ + l)
    }
}

/// A paragraph alignment by its name in any letter case.
pub fn paragraph_align_from_name(value: &str) -> (r: Result<HwpxParagraphAlign, String>)
    ensures
        match spec_align_by_name(value@) {
            Ok(a) => r == Ok::<HwpxParagraphAlign, String>(a),
            Err(m) => r matches Err(x) && x@ == m,
        },
{
    let cs = chars_of(value);
    let lower_chars = ascii_lower_range(&cs, 0, cs.len());
    assert(cs@.subrange(0, cs@.len() as int) =~= value@);
    let lower = string_of(lower_chars.as_slice());
    if str_eq(lower.as_str(), "left") {
        Ok(HwpxParagraphAlign::Left)
    } else if str_eq(lower.as_str(), "center") {
        Ok(HwpxParagraphAlign::Center)
    } else if str_eq(lower.as_str(), "right") {
        Ok(HwpxParagraphAlign::Right)
    } else if str_eq(lower.as_str(), "justify") {
        Ok(HwpxParagraphAlign::Justify)
    } else {
        let mut m = owned("invalid HWPX paragraph alignment: ");
        m.append(lower.as_str());
        Err(m)
    }
}

} // verus!
