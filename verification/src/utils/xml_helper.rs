//! XML escaping.
use vstd::prelude::*;
use crate::utils::text::push_char;

verus! {

/// The replacement character used for code points that XML 1.0 forbids.
pub open spec fn replacement_char() -> char {
    '\u{FFFD}'
}

/// Whether a character may appear in an XML 1.0 document.
pub open spec fn spec_is_valid_xml_char(c: char) -> bool {
    let v = c as u32;
    v == 0x9 || v == 0xA || v == 0xD || (0x20 <= v && v <= 0xD7FF) || (0xE000 <= v && v <= 0xFFFD)
        || (0x10000 <= v && v <= 0x10FFFF)
}

/// What one character of text becomes inside XML character data.
pub open spec fn escape_text_char(c: char) -> Seq<char> {
    if !spec_is_valid_xml_char(c) {
        seq![replacement_char()]
    } else if c == '&' {
        "&amp;"@
    } else if c == '<' {
        "&lt;"@
    } else if c == '>' {
        "&gt;"@
    } else {
        seq![c]
    }
}

/// What one character becomes inside an XML attribute value.
pub open spec fn escape_attr_char(c: char) -> Seq<char> {
    if c == '"' {
        "&quot;"@
    } else if c == '\'' {
        "&apos;"@
    } else {
        escape_text_char(c)
    }
}

/// Escaped character data: each character replaced by its escape, in order.
pub open spec fn spec_escape_text(s: Seq<char>) -> Seq<char>
    decreases s.len(),
{
    if s.len() == 0 {
        seq![]
    } else {
        spec_escape_text(s.drop_last()) + escape_text_char(s.last())
    }
}

/// Escaped attribute value: each character replaced by its escape, in order.
pub open spec fn spec_escape_attr(s: Seq<char>) -> Seq<char>
    decreases s.len(),
{
    if s.len() == 0 {
        seq![]
    } else {
        spec_escape_attr(s.drop_last()) + escape_attr_char(s.last())
    }
}

pub fn is_valid_xml_char(c: char) -> (b: bool)
    ensures
        b == spec_is_valid_xml_char(c),
{
    let v = c as u32;
    v == 0x9 || v == 0xA || v == 0xD || (0x20 <= v && v <= 0xD7FF) || (0xE000 <= v && v <= 0xFFFD)
        || (0x10000 <= v && v <= 0x10FFFF)
}

fn escape_with(input: &str, attr: bool) -> (out: String)
    ensures
        attr ==> out@ == spec_escape_attr(input@),
        !attr ==> out@ == spec_escape_text(input@),
{
    let mut out = String::new();
    let ghost chars = input@;
    for c in it: input.chars()
        invariant
            it.seq() == chars,
            attr ==> out@ == spec_escape_attr(chars.take(it.index() as int)),
            !attr ==> out@ == spec_escape_text(chars.take(it.index() as int)),
    {
        assert(chars.take(it.index() + 1).drop_last() == chars.take(it.index() as int));
        if attr && c == '"' {
            out.append("&quot;");
        } else if attr && c == '\'' {
            out.append("&apos;");
        } else if !is_valid_xml_char(c) {
            push_char(&mut out, '\u{FFFD}');
        } else if c == '&' {
            out.append("&amp;");
        } else if c == '<' {
            out.append("&lt;");
        } else if c == '>' {
            out.append("&gt;");
        } else {
            push_char(&mut out, c);
        }
    }
    assert(chars.take(chars.len() as int) == chars);
    out
}

/// Escapes text for XML character data, replacing characters that XML forbids.
pub fn escape_text(input: &str) -> (out: String)
    ensures
        out@ == spec_escape_text(input@),
{
    escape_with(input, false)
}

/// Escapes text for an XML attribute value, replacing characters that XML forbids.
pub fn escape_attr(input: &str) -> (out: String)
    ensures
        out@ == spec_escape_attr(input@),
{
    escape_with(input, true)
}

} // verus!
