//! Inline content of HWPX text elements: text in a character style, highlighted
//! code, and line breaks.
use vstd::prelude::*;
use crate::error::{CoreRsError, ErrorKind, ErrorV, err};
use crate::models::inline::{Inline, InlineV, inlines_view};
use crate::parser::hwpx::metadata::invalid_hwpx;
use crate::parser::hwpx::registry::{CharStyle, unsupported_error};
use crate::utils::text::{owned, push_char, str_eq};
use crate::utils::xml_reader::{XmlNode, XmlNodeV, children, spec_children, xml_nodes_view};

verus! {

broadcast use crate::models::block::group_view_lemmas;

/// Appends an inline: empty text is dropped, and text joins a text before it.
pub open spec fn spec_push_inline(s: Seq<InlineV>, i: InlineV) -> Seq<InlineV> {
    match i {
        InlineV::Text(t) => if t.len() == 0 {
            s
        } else if s.len() > 0 && s.last() is Text {
            s.drop_last().push(InlineV::Text(s.last()->Text_0 + t))
        } else {
            s.push(InlineV::Text(t))
        },
        _ => s.push(i),
    }
}

/// Text in a character style: plain, strong or emphasised.
pub open spec fn styled(t: Seq<char>, style: CharStyle) -> InlineV {
    match style {
        CharStyle::Plain => InlineV::Text(t),
        CharStyle::Bold => InlineV::Strong(seq![InlineV::Text(t)]),
        CharStyle::Italic => InlineV::Emphasis(seq![InlineV::Text(t)]),
    }
}

/// Appends styled text, unless it is empty.
pub open spec fn spec_push_styled(s: Seq<InlineV>, t: Seq<char>, style: CharStyle) -> Seq<InlineV> {
    if t.len() == 0 { s } else { spec_push_inline(s, styled(t, style)) }
}

/// Appends an inline to inlines.
pub fn push_inline(inlines: &mut Vec<Inline>, inline: Inline)
    ensures
        inlines_view(final(inlines)@) == spec_push_inline(inlines_view(old(inlines)@), inline@),
{
    match inline {
        Inline::Text(text) => {
            if text.as_str().is_empty() {
                return;
            }
            let n = inlines.len();
            if n > 0 {
                let last_is_text = match &inlines[n - 1] {
                    Inline::Text(_) => true,
                    _ => false,
                };
                if last_is_text {
                    let ghost before = inlines_view(inlines@);
                    let last = inlines.pop().unwrap();
                    assert(inlines_view(inlines@) =~= before.drop_last());
                    match last {
                        Inline::Text(existing) => {
                            let mut joined = existing;
                            joined.append(text.as_str());
                            inlines.push(Inline::Text(joined));
                            return;
                        },
                        _ => {
                            proof { assert(false); }
                            return;
                        },
                    }
                }
            }
            inlines.push(Inline::Text(text));
        },
        other => inlines.push(other),
    }
}

fn push_styled(inlines: &mut Vec<Inline>, text: String, style: CharStyle)
    ensures
        inlines_view(final(inlines)@) == spec_push_styled(inlines_view(old(inlines)@), text@, style),
{
    if text.as_str().is_empty() {
        return;
    }
    let ghost t = text@;
    let inline = match style {
        CharStyle::Plain => Inline::Text(text),
        CharStyle::Bold => {
            let mut v: Vec<Inline> = Vec::new();
            v.push(Inline::Text(text));
            Inline::Strong(v)
        },
        CharStyle::Italic => {
            let mut v: Vec<Inline> = Vec::new();
            v.push(Inline::Text(text));
            Inline::Emphasis(v)
        },
    };
    assert(inline@ == styled(t, style)) by {
        match style {
            CharStyle::Plain => {},
            _ => {
                assert(inlines_view(seq![Inline::Text(text)]) =~= seq![InlineV::Text(t)]);
            },
        }
    }
    push_inline(inlines, inline);
}

/// The state of reading a text element: the inlines so far, the code being read,
/// and whether a highlight is open.
pub type TextStateV = (Seq<InlineV>, Seq<char>, bool);

pub open spec fn text_or_empty(v: Seq<XmlNodeV>, j: nat) -> Seq<char> {
    match v[j as int].text {
        Some(t) => t,
        None => seq![],
    }
}

/// One child of a text element: text is appended in the style, or to the code
/// inside a highlight; a highlight's end closes a code span; a line break is a hard
/// break; anything else is refused.
pub open spec fn spec_text_step(v: Seq<XmlNodeV>, j: nat, st: TextStateV, style: CharStyle) -> Result<TextStateV, ErrorV> {
    let n = v[j as int];
    if n.is_text {
        let value = text_or_empty(v, j);
        if value.len() == 0 {
            Ok(st)
        } else if st.2 {
            Ok((st.0, st.1 + value, true))
        } else {
            Ok((spec_push_styled(st.0, value, style), st.1, false))
        }
    } else if !n.is_element {
        Ok(st)
    } else if n.name == "markpenBegin"@ {
        if st.2 { Err(invalid_hwpx("nested hp:markpenBegin is not supported"@)) } else { Ok((st.0, st.1, true)) }
    } else if n.name == "markpenEnd"@ {
        if !st.2 {
            Err(invalid_hwpx("hp:markpenEnd without hp:markpenBegin"@))
        } else {
            Ok((spec_push_inline(st.0, InlineV::Code(st.1)), seq![], false))
        }
    } else if n.name == "lineBreak"@ {
        if st.2 {
            Err(unsupported_error("HWPX parser does not support code spans containing line breaks"@))
        } else {
            Ok((spec_push_inline(st.0, InlineV::HardBreak), st.1, false))
        }
    } else {
        Err(unsupported_error("HWPX parser does not support hp:t child "@ + n.name))
    }
}

pub open spec fn spec_text_upto(v: Seq<XmlNodeV>, cs: Seq<nat>, k: nat, init: Seq<InlineV>, style: CharStyle) -> Result<TextStateV, ErrorV>
    decreases k,
{
    if k == 0 {
        Ok((init, seq![], false))
    } else {
        match spec_text_upto(v, cs, (k - 1) as nat, init, style) {
            Err(e) => Err(e),
            Ok(st) => spec_text_step(v, cs[k - 1], st, style),
        }
    }
}

/// The inlines after reading a text element onto some inlines; a highlight left
/// open is refused.
pub open spec fn spec_parse_text_node(v: Seq<XmlNodeV>, t: nat, style: CharStyle, init: Seq<InlineV>) -> Result<Seq<InlineV>, ErrorV> {
    let cs = spec_children(v, t);
    match spec_text_upto(v, cs, cs.len(), init, style) {
        Err(e) => Err(e),
        Ok(st) => if st.2 { Err(invalid_hwpx("unterminated markpen code span"@)) } else { Ok(st.0) },
    }
}

proof fn lemma_text_err(v: Seq<XmlNodeV>, cs: Seq<nat>, k: nat, n: nat, init: Seq<InlineV>, style: CharStyle)
    requires
        k <= n,
        spec_text_upto(v, cs, k, init, style) is Err,
    ensures
        spec_text_upto(v, cs, n, init, style) == spec_text_upto(v, cs, k, init, style),
    decreases n - k,
{
    if k < n {
        lemma_text_err(v, cs, k, (n - 1) as nat, init, style);
    }
}

fn text_of(nodes: &Vec<XmlNode>, j: usize) -> (t: String)
    requires
        j < nodes.len(),
    ensures
        t@ == text_or_empty(xml_nodes_view(nodes@), j as nat),
{
    assert(xml_nodes_view(nodes@)[j as int] == nodes@[j as int]@);
    match &nodes[j].text {
        Some(t) => t.clone(),
        None => String::new(),
    }
}

/// Reads a text element onto some inlines.
pub fn parse_text_node(nodes: &Vec<XmlNode>, t: usize, style: CharStyle, inlines: &mut Vec<Inline>) -> (r: Result<(), CoreRsError>)
    ensures
        match spec_parse_text_node(xml_nodes_view(nodes@), t as nat, style, inlines_view(old(inlines)@)) {
            Ok(x) => r is Ok && inlines_view(final(inlines)@) == x,
            Err(e) => r matches Err(y) && y@ == e,
        },
{
    let ghost v = xml_nodes_view(nodes@);
    let ghost init = inlines_view(inlines@);
    let cs = children(nodes, t);
    let ghost cv = cs@.map_values(|x: usize| x as nat);
    let mut code = String::new();
    let mut in_code = false;
    let mut k: usize = 0;
    while k < cs.len()
        invariant
            k <= cs.len(),
            v == xml_nodes_view(nodes@),
            cv == cs@.map_values(|x: usize| x as nat),
            cv == spec_children(v, t as nat),
            init == inlines_view(old(inlines)@),
            forall|x: int| 0 <= x < cs.len() ==> cs[x] < nodes.len(),
            spec_text_upto(v, cv, k as nat, init, style) == Ok::<TextStateV, ErrorV>((inlines_view(inlines@), code@, in_code)),
        decreases cs.len() - k,
    {
        let j = cs[k];
        assert(cv[k as int] == j as nat);
        assert(v[j as int] == nodes@[j as int]@);
        let ghost st: TextStateV = (inlines_view(inlines@), code@, in_code);
        let failed: Option<CoreRsError> = if nodes[j].is_text {
            let value = text_of(nodes, j);
            if !value.as_str().is_empty() {
                if in_code {
                    code.append(value.as_str());
                } else {
                    push_styled(inlines, value, style);
                }
            }
            None
        } else if !nodes[j].is_element {
            None
        } else if str_eq(nodes[j].name.as_str(), "markpenBegin") {
            if in_code {
                Some(CoreRsError::from_str_detail(ErrorKind::InvalidHwpx, "nested hp:markpenBegin is not supported"))
            } else {
                in_code = true;
                None
            }
        } else if str_eq(nodes[j].name.as_str(), "markpenEnd") {
            if !in_code {
                Some(CoreRsError::from_str_detail(ErrorKind::InvalidHwpx, "hp:markpenEnd without hp:markpenBegin"))
            } else {
                let taken = code;
                code = String::new();
                push_inline(inlines, Inline::Code(taken));
                in_code = false;
                None
            }
        } else if str_eq(nodes[j].name.as_str(), "lineBreak") {
            if in_code {
                Some(CoreRsError::from_str_detail(
                    ErrorKind::UnsupportedFeature,
                    "HWPX parser does not support code spans containing line breaks",
                ))
            } else {
                push_inline(inlines, Inline::HardBreak);
                None
            }
        } else {
            let mut m = owned("HWPX parser does not support hp:t child ");
            m.append(nodes[j].name.as_str());
            Some(CoreRsError::new(ErrorKind::UnsupportedFeature, m))
        };
        match failed {
            Some(e) => {
                assert(spec_text_upto(v, cv, (k + 1) as nat, init, style) == Err::<TextStateV, ErrorV>(e@));
                proof { lemma_text_err(v, cv, (k + 1) as nat, cv.len(), init, style); }
                return Err(e);
            },
            None => {},
        }
        k += 1;
    }
    if in_code {
        return Err(CoreRsError::from_str_detail(ErrorKind::InvalidHwpx, "unterminated markpen code span"));
    }
    Ok(())
}

/// One child of a text element read as plain text: text as it is, a line break as
/// a line feed, highlights dropped; anything else is refused.
pub open spec fn spec_flatten_step(v: Seq<XmlNodeV>, j: nat, acc: Seq<char>) -> Result<Seq<char>, ErrorV> {
    let n = v[j as int];
    if n.is_text {
        Ok(acc + text_or_empty(v, j))
    } else if !n.is_element {
        Ok(acc)
    } else if n.name == "lineBreak"@ {
        Ok(acc.push('\n'))
    } else if n.name == "markpenBegin"@ || n.name == "markpenEnd"@ {
        Ok(acc)
    } else {
        Err(unsupported_error("HWPX parser does not support hyperlink text child "@ + n.name))
    }
}

pub open spec fn spec_flatten_upto(v: Seq<XmlNodeV>, cs: Seq<nat>, k: nat) -> Result<Seq<char>, ErrorV>
    decreases k,
{
    if k == 0 {
        Ok(seq![])
    } else {
        match spec_flatten_upto(v, cs, (k - 1) as nat) {
            Err(e) => Err(e),
            Ok(acc) => spec_flatten_step(v, cs[k - 1], acc),
        }
    }
}

/// The plain text of a text element.
pub open spec fn spec_flatten_text_node(v: Seq<XmlNodeV>, t: nat) -> Result<Seq<char>, ErrorV> {
    let cs = spec_children(v, t);
    spec_flatten_upto(v, cs, cs.len())
}

proof fn lemma_flatten_err(v: Seq<XmlNodeV>, cs: Seq<nat>, k: nat, n: nat)
    requires
        k <= n,
        spec_flatten_upto(v, cs, k) is Err,
    ensures
        spec_flatten_upto(v, cs, n) == spec_flatten_upto(v, cs, k),
    decreases n - k,
{
    if k < n {
        lemma_flatten_err(v, cs, k, (n - 1) as nat);
    }
}

/// The plain text of a text element.
pub fn flatten_text_node(nodes: &Vec<XmlNode>, t: usize) -> (r: Result<String, CoreRsError>)
    ensures
        match spec_flatten_text_node(xml_nodes_view(nodes@), t as nat) {
            Ok(x) => r matches Ok(y) && y@ == x,
            Err(e) => r matches Err(y) && y@ == e,
        },
{
    let ghost v = xml_nodes_view(nodes@);
    let cs = children(nodes, t);
    let ghost cv = cs@.map_values(|x: usize| x as nat);
    let mut text = String::new();
    let mut k: usize = 0;
    while k < cs.len()
        invariant
            k <= cs.len(),
            v == xml_nodes_view(nodes@),
            cv == cs@.map_values(|x: usize| x as nat),
            cv == spec_children(v, t as nat),
            forall|x: int| 0 <= x < cs.len() ==> cs[x] < nodes.len(),
            spec_flatten_upto(v, cv, k as nat) == Ok::<Seq<char>, ErrorV>(text@),
        decreases cs.len() - k,
    {
        let j = cs[k];
        assert(cv[k as int] == j as nat);
        assert(v[j as int] == nodes@[j as int]@);
        if nodes[j].is_text {
            let value = text_of(nodes, j);
            text.append(value.as_str());
        } else if nodes[j].is_element {
            if str_eq(nodes[j].name.as_str(), "lineBreak") {
                push_char(&mut text, '\n');
            } else if str_eq(nodes[j].name.as_str(), "markpenBegin") || str_eq(nodes[j].name.as_str(), "markpenEnd") {
            } else {
                let mut m = owned("HWPX parser does not support hyperlink text child ");
                m.append(nodes[j].name.as_str());
                proof { lemma_flatten_err(v, cv, (k + 1) as nat, cv.len()); }
                return Err(CoreRsError::new(ErrorKind::UnsupportedFeature, m));
            }
        }
        k += 1;
    }
    Ok(text)
}

} // verus!
