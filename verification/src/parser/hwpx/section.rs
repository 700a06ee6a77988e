//! The section part of an HWPX package read back into blocks: each paragraph with
//! its runs, hyperlink fields and tables, and the paragraphs grouped into quotes
//! and lists by the contracts of their paragraph properties.
use vstd::prelude::*;
use crate::error::{CoreRsError, ErrorKind, ErrorV, err};
use crate::models::block::{Block, BlockV, ListBlock, ListBlockV, ListItem, TableBlock, TableBlockV, blocks_view, items_view};
use crate::models::inline::{Inline, InlineV, inlines_view};
use crate::parser::hwpx::inline::{parse_text_node, push_inline, spec_parse_text_node, spec_push_inline};
use crate::parser::hwpx::metadata::invalid_hwpx;
use crate::parser::hwpx::registry::{
    CharStyle, ListInfo, ListKind, ParagraphContract, Registry, RegistryV, has_child_named, index_view, is_named,
    unknown_paragraph, unsupported_error,
};
use crate::parser::hwpx::table::{node_name, parse_table, spec_parse_table};
use crate::utils::text::{owned, spec_starts_with, starts_with, str_eq};
use crate::utils::xml_reader::{
    XmlNode, XmlNodeV, attribute, children, descendants, element_children, find_child, nodes_ok, opt_index,
    opt_string_view, parse_unsigned, required_u32_attr, spec_attribute, spec_children, spec_descendants,
    spec_element_children, spec_parse_unsigned, spec_required_u32, first_named, xml_nodes_view,
};

verus! {

broadcast use crate::models::block::group_view_lemmas;

/// A hyperlink field that has begun and not yet ended: its id, target and text.
#[derive(Debug)]
pub struct ActiveHyperlink {
    pub begin_id: u64,
    pub path: String,
    pub text: Vec<Inline>,
}

/// The state of reading a paragraph's runs.
#[derive(Debug)]
pub struct RunState {
    pub inlines: Vec<Inline>,
    pub table: Option<TableBlock>,
    pub active_hyperlink: Option<ActiveHyperlink>,
}

pub struct ActiveLinkV {
    pub begin: u64,
    pub path: Seq<char>,
    pub text: Seq<InlineV>,
}

pub struct RunStateV {
    pub inlines: Seq<InlineV>,
    pub table: Option<TableBlockV>,
    pub active: Option<ActiveLinkV>,
}

impl View for RunState {
    type V = RunStateV;

    open spec fn view(&self) -> RunStateV {
        RunStateV {
            inlines: inlines_view(self.inlines@),
            table: match self.table {
                Some(t) => Some(crate::models::block::table_view(t)),
                None => None,
            },
            active: match self.active_hyperlink {
                Some(l) => Some(ActiveLinkV { begin: l.begin_id, path: l.path@, text: inlines_view(l.text@) }),
                None => None,
            },
        }
    }
}

pub open spec fn empty_state() -> RunStateV {
    RunStateV { inlines: seq![], table: None, active: None }
}

/// The first `stringParam` named `Path` among some nodes.
pub open spec fn first_path_param(v: Seq<XmlNodeV>, s: Seq<nat>) -> Option<nat>
    decreases s.len(),
{
    if s.len() == 0 {
        None
    } else if v[s[0] as int].is_element && v[s[0] as int].name == "stringParam"@
        && spec_attribute(v, s[0], "name"@) == Some("Path"@) {
        Some(s[0])
    } else {
        first_path_param(v, s.drop_first())
    }
}

/// The target of a field: the text of its `Path` parameter, or empty.
pub open spec fn field_path(v: Seq<XmlNodeV>, fb: nat) -> Seq<char> {
    match first_path_param(v, spec_descendants(v, fb)) {
        Some(p) => match v[p as int].text {
            Some(t) => t,
            None => seq![],
        },
        None => seq![],
    }
}

/// The target and id of a hyperlink field that a control begins.
pub open spec fn spec_field_begin(v: Seq<XmlNodeV>, c: nat) -> Option<(Seq<char>, u64)> {
    if !is_named(v, c, "ctrl"@) {
        None
    } else {
        match first_named(v, spec_children(v, c), "fieldBegin"@) {
            None => None,
            Some(fb) => if spec_attribute(v, fb, "type"@) != Some("HYPERLINK"@) {
                None
            } else {
                match spec_attribute(v, fb, "id"@) {
                    None => None,
                    Some(t) => match spec_parse_unsigned(t, u64::MAX as nat) {
                        Err(_) => None,
                        Ok(id) => Some((field_path(v, fb), id as u64)),
                    },
                }
            },
        }
    }
}

/// The id of the field that a control ends.
pub open spec fn spec_field_end(v: Seq<XmlNodeV>, c: nat) -> Option<u64> {
    if !is_named(v, c, "ctrl"@) {
        None
    } else {
        match first_named(v, spec_children(v, c), "fieldEnd"@) {
            None => None,
            Some(fe) => match spec_attribute(v, fe, "beginIDRef"@) {
                None => None,
                Some(t) => match spec_parse_unsigned(t, u64::MAX as nat) {
                    Err(_) => None,
                    Ok(id) => Some(id as u64),
                },
            },
        }
    }
}

/// Whether one of some nodes is an element whose name starts with `field`.
pub open spec fn any_field_like(v: Seq<XmlNodeV>, s: Seq<nat>) -> bool
    decreases s.len(),
{
    if s.len() == 0 {
        false
    } else {
        (v[s[0] as int].is_element && spec_starts_with(v[s[0] as int].name, "field"@)) || any_field_like(v, s.drop_first())
    }
}

/// A control in a run: a column definition is skipped; a hyperlink field begins or
/// ends (its text becomes a link, or its target when it has no text); other fields
/// and controls are refused.
pub open spec fn spec_handle_control(v: Seq<XmlNodeV>, c: nat, st: RunStateV) -> Result<RunStateV, ErrorV> {
    if has_child_named(v, c, "colPr"@) {
        Ok(st)
    } else if spec_field_begin(v, c) is Some {
        let (path, id) = spec_field_begin(v, c)->0;
        if st.active is Some {
            Err(invalid_hwpx("nested hyperlink fields are not supported"@))
        } else {
            Ok(RunStateV { active: Some(ActiveLinkV { begin: id, path, text: seq![] }), ..st })
        }
    } else if spec_field_end(v, c) is Some {
        match st.active {
            None => Err(invalid_hwpx("hyperlink field is missing hp:fieldBegin"@)),
            Some(link) => if link.begin != spec_field_end(v, c)->0 {
                Err(invalid_hwpx("hyperlink field begin/end ids do not match"@))
            } else {
                let text = if link.text.len() == 0 { seq![InlineV::Text(link.path)] } else { link.text };
                Ok(RunStateV {
                    inlines: spec_push_inline(st.inlines, InlineV::Link { text, url: link.path }),
                    active: None,
                    ..st
                })
            },
        }
    } else if any_field_like(v, spec_children(v, c)) {
        Err(invalid_hwpx("HWPX parser encountered an unsupported field control"@))
    } else if st.active is Some {
        Err(unsupported_error("HWPX parser does not support controls inside hyperlinks"@))
    } else {
        Err(unsupported_error("HWPX parser does not support this control shape"@))
    }
}

/// One element child of a run: section properties are skipped; a control is
/// handled; a text element is read onto the open hyperlink's text or the
/// paragraph's inlines; anything else is refused.
pub open spec fn spec_run_step(v: Seq<XmlNodeV>, j: nat, st: RunStateV, style: CharStyle) -> Result<RunStateV, ErrorV> {
    let n = node_name(v, j);
    if n == "secPr"@ {
        Ok(st)
    } else if n == "ctrl"@ {
        spec_handle_control(v, j, st)
    } else if n == "t"@ {
        match st.active {
            Some(link) => match spec_parse_text_node(v, j, style, link.text) {
                Err(e) => Err(e),
                Ok(t) => Ok(RunStateV { active: Some(ActiveLinkV { text: t, ..link }), ..st }),
            },
            None => match spec_parse_text_node(v, j, style, st.inlines) {
                Err(e) => Err(e),
                Ok(t) => Ok(RunStateV { inlines: t, ..st }),
            },
        }
    } else {
        Err(unsupported_error("HWPX parser does not support hp:run child "@ + n))
    }
}

pub open spec fn spec_run_upto(v: Seq<XmlNodeV>, cs: Seq<nat>, k: nat, st: RunStateV, style: CharStyle) -> Result<RunStateV, ErrorV>
    decreases k,
{
    if k == 0 {
        Ok(st)
    } else {
        match spec_run_upto(v, cs, (k - 1) as nat, st, style) {
            Err(e) => Err(e),
            Ok(s) => spec_run_step(v, cs[k - 1], s, style),
        }
    }
}

pub open spec fn char_style_of(reg: RegistryV, id: u32) -> CharStyle {
    if reg.chars.contains_key(id) { reg.chars[id] } else { CharStyle::Plain }
}

/// A run: its character style (plain in legacy quotes and headings); a run with a
/// table holds only that table; otherwise its children are read in turn.
pub open spec fn spec_parse_run(v: Seq<XmlNodeV>, r: nat, reg: RegistryV, contract: ParagraphContract, is_heading: bool, st: RunStateV) -> Result<RunStateV, ErrorV> {
    match spec_required_u32(v, r, "charPrIDRef"@, "hp:run"@) {
        Err(e) => Err(e),
        Ok(cid) => {
            let style = if contract.legacy_quote || is_heading { CharStyle::Plain } else { char_style_of(reg, cid) };
            match first_named(v, spec_children(v, r), "tbl"@) {
                Some(tbl) => if st.table is Some || st.inlines.len() > 0 {
                    Err(invalid_hwpx("table paragraph mixed with inline content"@))
                } else {
                    match spec_parse_table(v, tbl) {
                        Err(e) => Err(e),
                        Ok(t) => Ok(RunStateV { table: Some(t), ..st }),
                    }
                },
                None => {
                    let cs = spec_element_children(v, r);
                    spec_run_upto(v, cs, cs.len(), st, style)
                },
            }
        },
    }
}

/// One element child of a paragraph: a run is read; the line layout is skipped;
/// anything else is refused.
pub open spec fn spec_paragraph_step(v: Seq<XmlNodeV>, j: nat, reg: RegistryV, contract: ParagraphContract, is_heading: bool, st: RunStateV) -> Result<RunStateV, ErrorV> {
    let n = node_name(v, j);
    if n == "run"@ {
        spec_parse_run(v, j, reg, contract, is_heading, st)
    } else if n == "linesegarray"@ {
        Ok(st)
    } else {
        Err(unsupported_error("HWPX parser does not support hp:p child "@ + n))
    }
}

pub open spec fn spec_paragraph_upto(v: Seq<XmlNodeV>, cs: Seq<nat>, k: nat, reg: RegistryV, contract: ParagraphContract, is_heading: bool) -> Result<RunStateV, ErrorV>
    decreases k,
{
    if k == 0 {
        Ok(empty_state())
    } else {
        match spec_paragraph_upto(v, cs, (k - 1) as nat, reg, contract, is_heading) {
            Err(e) => Err(e),
            Ok(s) => spec_paragraph_step(v, cs[k - 1], reg, contract, is_heading, s),
        }
    }
}

/// A paragraph read from a section: its quote depth, its list level, and its block.
pub type RecordV = (u8, Option<ListInfo>, BlockV);

pub open spec fn heading_of(reg: RegistryV, style_id: u32) -> Option<u8> {
    if reg.headings.contains_key(style_id) { Some(reg.headings[style_id]) } else { None }
}

/// A paragraph: its contract and heading level from the registry; after its runs,
/// an open hyperlink is refused; a table (not in quotes or lists) is a table
/// block; no inlines is no block; otherwise a heading or a paragraph.
pub open spec fn spec_parse_paragraph(v: Seq<XmlNodeV>, p: nat, reg: RegistryV) -> Result<Option<RecordV>, ErrorV> {
    match spec_required_u32(v, p, "paraPrIDRef"@, "hp:p"@) {
        Err(e) => Err(e),
        Ok(pid) => match spec_required_u32(v, p, "styleIDRef"@, "hp:p"@) {
            Err(e) => Err(e),
            Ok(sid) => if !reg.paragraphs.contains_key(pid) {
                Err(unknown_paragraph(pid))
            } else {
                let contract = reg.paragraphs[pid];
                let heading = heading_of(reg, sid);
                let cs = spec_element_children(v, p);
                match spec_paragraph_upto(v, cs, cs.len(), reg, contract, heading is Some) {
                    Err(e) => Err(e),
                    Ok(st) => if st.active is Some {
                        Err(invalid_hwpx("hyperlink field is missing hp:fieldEnd"@))
                    } else {
                        match st.table {
                            Some(t) => if contract.list is Some || contract.quote_depth > 0 {
                                Err(unsupported_error("HWPX parser does not support quoted or list tables"@))
                            } else {
                                Ok(Some((contract.quote_depth, contract.list, BlockV::Table(t))))
                            },
                            None => if st.inlines.len() == 0 {
                                Ok(None)
                            } else {
                                match heading {
                                    Some(l) => Ok(Some((contract.quote_depth, contract.list, BlockV::Heading { level: l, content: st.inlines }))),
                                    None => Ok(Some((contract.quote_depth, contract.list, BlockV::Paragraph(st.inlines)))),
                                }
                            },
                        }
                    },
                }
            },
        },
    }
}

/// The records of the first `k` element children of a section; a child that is
/// not a paragraph is refused.
pub open spec fn spec_records_upto(v: Seq<XmlNodeV>, cs: Seq<nat>, k: nat, reg: RegistryV) -> Result<Seq<RecordV>, ErrorV>
    decreases k,
{
    if k == 0 {
        Ok(seq![])
    } else {
        match spec_records_upto(v, cs, (k - 1) as nat, reg) {
            Err(e) => Err(e),
            Ok(acc) => {
                let j = cs[k - 1];
                if node_name(v, j) != "p"@ {
                    Err(unsupported_error("HWPX parser does not support section child "@ + node_name(v, j)))
                } else {
                    match spec_parse_paragraph(v, j, reg) {
                        Err(e) => Err(e),
                        Ok(None) => Ok(acc),
                        Ok(Some(r)) => Ok(acc.push(r)),
                    }
                }
            },
        }
    }
}

fn path_param_text(nodes: &Vec<XmlNode>, fb: usize) -> (t: String)
    requires
        nodes_ok(nodes),
    ensures
        t@ == field_path(xml_nodes_view(nodes@), fb as nat),
{
    let ghost v = xml_nodes_view(nodes@);
    let ds = descendants(nodes, fb);
    let ghost dv = index_view(ds@);
    let mut k: usize = 0;
    assert(dv.skip(0) =~= dv);
    while k < ds.len()
        invariant
            k <= ds.len(),
            v == xml_nodes_view(nodes@),
            dv == index_view(ds@),
            dv == spec_descendants(v, fb as nat),
            forall|x: int| 0 <= x < ds.len() ==> ds[x] < nodes.len(),
            first_path_param(v, dv) == first_path_param(v, dv.skip(k as int)),
        decreases ds.len() - k,
    {
        let j = ds[k];
        assert(dv.skip(k as int)[0] == j as nat);
        assert(v[j as int] == nodes@[j as int]@);
        if nodes[j].is_element && str_eq(nodes[j].name.as_str(), "stringParam") {
            let is_path = match attribute(nodes, j, "name") {
                Some(n) => str_eq(n.as_str(), "Path"),
                None => false,
            };
            if is_path {
                return match &nodes[j].text {
                    Some(t) => t.clone(),
                    None => String::new(),
                };
            }
        }
        assert(dv.skip(k as int).drop_first() =~= dv.skip(k + 1));
        k += 1;
    }
    assert(dv.skip(k as int) =~= Seq::<nat>::empty());
    String::new()
}

fn is_element_named(nodes: &Vec<XmlNode>, j: usize, name: &str) -> (b: bool)
    requires
        j < nodes.len(),
    ensures
        b == is_named(xml_nodes_view(nodes@), j as nat, name@),
{
    assert(xml_nodes_view(nodes@)[j as int] == nodes@[j as int]@);
    nodes[j].is_element && str_eq(nodes[j].name.as_str(), name)
}

fn field_begin(nodes: &Vec<XmlNode>, c: usize) -> (r: Option<(String, u64)>)
    requires
        nodes_ok(nodes),
        c < nodes.len(),
    ensures
        match spec_field_begin(xml_nodes_view(nodes@), c as nat) {
            Some(x) => r matches Some(y) && y.0@ == x.0 && y.1 == x.1,
            None => r is None,
        },
{
    if !is_element_named(nodes, c, "ctrl") {
        return None;
    }
    let fb = match find_child(nodes, c, "fieldBegin") {
        Some(fb) => fb,
        None => return None,
    };
    let is_link = match attribute(nodes, fb, "type") {
        Some(t) => str_eq(t.as_str(), "HYPERLINK"),
        None => false,
    };
    if !is_link {
        return None;
    }
    let id_text = match attribute(nodes, fb, "id") {
        Some(t) => t,
        None => return None,
    };
    let id = match parse_unsigned(id_text.as_str(), 18446744073709551615) {
        Ok(id) => id,
        Err(_) => return None,
    };
    Some((path_param_text(nodes, fb), id))
}

fn field_end(nodes: &Vec<XmlNode>, c: usize) -> (r: Option<u64>)
    requires
        c < nodes.len(),
    ensures
        match spec_field_end(xml_nodes_view(nodes@), c as nat) {
            Some(x) => r == Some(x),
            None => r is None,
        },
{
    if !is_element_named(nodes, c, "ctrl") {
        return None;
    }
    let fe = match find_child(nodes, c, "fieldEnd") {
        Some(fe) => fe,
        None => return None,
    };
    let id_text = match attribute(nodes, fe, "beginIDRef") {
        Some(t) => t,
        None => return None,
    };
    match parse_unsigned(id_text.as_str(), 18446744073709551615) {
        Ok(id) => Some(id),
        Err(_) => None,
    }
}

fn has_field_like_marker(nodes: &Vec<XmlNode>, c: usize) -> (b: bool)
    ensures
        b == any_field_like(xml_nodes_view(nodes@), spec_children(xml_nodes_view(nodes@), c as nat)),
{
    let ghost v = xml_nodes_view(nodes@);
    let cs = children(nodes, c);
    let ghost cv = index_view(cs@);
    let mut k: usize = 0;
    assert(cv.skip(0) =~= cv);
    while k < cs.len()
        invariant
            k <= cs.len(),
            v == xml_nodes_view(nodes@),
            cv == index_view(cs@),
            cv == spec_children(v, c as nat),
            forall|x: int| 0 <= x < cs.len() ==> cs[x] < nodes.len(),
            any_field_like(v, cv) == any_field_like(v, cv.skip(k as int)),
        decreases cs.len() - k,
    {
        let j = cs[k];
        assert(cv.skip(k as int)[0] == j as nat);
        assert(v[j as int] == nodes@[j as int]@);
        if nodes[j].is_element && starts_with(nodes[j].name.as_str(), "field") {
            return true;
        }
        assert(cv.skip(k as int).drop_first() =~= cv.skip(k + 1));
        k += 1;
    }
    assert(cv.skip(k as int) =~= Seq::<nat>::empty());
    false
}

fn handle_control(nodes: &Vec<XmlNode>, c: usize, state: &mut RunState) -> (r: Result<(), CoreRsError>)
    requires
        nodes_ok(nodes),
        c < nodes.len(),
    ensures
        match spec_handle_control(xml_nodes_view(nodes@), c as nat, old(state)@) {
            Ok(x) => r is Ok && final(state)@ == x,
            Err(e) => r matches Err(y) && y@ == e,
        },
{
    if find_child(nodes, c, "colPr").is_some() {
        return Ok(());
    }
    match field_begin(nodes, c) {
        Some((path, begin_id)) => {
            if state.active_hyperlink.is_some() {
                return Err(CoreRsError::from_str_detail(ErrorKind::InvalidHwpx, "nested hyperlink fields are not supported"));
            }
            let text: Vec<Inline> = Vec::new();
            assert(inlines_view(text@) =~= Seq::<InlineV>::empty());
            state.active_hyperlink = Some(ActiveHyperlink { begin_id, path, text });
            return Ok(());
        },
        None => {},
    }
    match field_end(nodes, c) {
        Some(end_id) => {
            let link = match state.active_hyperlink.take() {
                Some(l) => l,
                None => return Err(CoreRsError::from_str_detail(ErrorKind::InvalidHwpx, "hyperlink field is missing hp:fieldBegin")),
            };
            if link.begin_id != end_id {
                return Err(CoreRsError::from_str_detail(ErrorKind::InvalidHwpx, "hyperlink field begin/end ids do not match"));
            }
            let ActiveHyperlink { begin_id: _, path, text } = link;
            let text = if text.len() == 0 {
                let mut t: Vec<Inline> = Vec::new();
                t.push(Inline::Text(path.clone()));
                assert(inlines_view(t@) =~= seq![InlineV::Text(path@)]);
                t
            } else {
                text
            };
            let ghost tv = inlines_view(text@);
            let ghost pv = path@;
            let ghost before = old(state)@;
            push_inline(&mut state.inlines, Inline::Link { text, url: path });
            assert(state@.inlines == spec_push_inline(before.inlines, InlineV::Link { text: tv, url: pv }));
            assert(state@.table == before.table);
            return Ok(());
        },
        None => {},
    }
    if has_field_like_marker(nodes, c) {
        return Err(CoreRsError::from_str_detail(ErrorKind::InvalidHwpx, "HWPX parser encountered an unsupported field control"));
    }
    if state.active_hyperlink.is_some() {
        return Err(CoreRsError::from_str_detail(ErrorKind::UnsupportedFeature, "HWPX parser does not support controls inside hyperlinks"));
    }
    Err(CoreRsError::from_str_detail(ErrorKind::UnsupportedFeature, "HWPX parser does not support this control shape"))
}

proof fn lemma_run_err(v: Seq<XmlNodeV>, cs: Seq<nat>, k: nat, n: nat, st: RunStateV, style: CharStyle)
    requires
        k <= n,
        spec_run_upto(v, cs, k, st, style) is Err,
    ensures
        spec_run_upto(v, cs, n, st, style) == spec_run_upto(v, cs, k, st, style),
    decreases n - k,
{
    if k < n {
        lemma_run_err(v, cs, k, (n - 1) as nat, st, style);
    }
}

fn name_is(nodes: &Vec<XmlNode>, j: usize, name: &str) -> (b: bool)
    requires
        j < nodes.len(),
    ensures
        b == (node_name(xml_nodes_view(nodes@), j as nat) == name@),
{
    assert(xml_nodes_view(nodes@)[j as int] == nodes@[j as int]@);
    str_eq(nodes[j].name.as_str(), name)
}

fn run_step(nodes: &Vec<XmlNode>, j: usize, style: CharStyle, state: &mut RunState) -> (r: Result<(), CoreRsError>)
    requires
        nodes_ok(nodes),
        j < nodes.len(),
    ensures
        match spec_run_step(xml_nodes_view(nodes@), j as nat, old(state)@, style) {
            Ok(x) => r is Ok && final(state)@ == x,
            Err(e) => r matches Err(y) && y@ == e,
        },
{
    if name_is(nodes, j, "secPr") {
        Ok(())
    } else if name_is(nodes, j, "ctrl") {
        handle_control(nodes, j, state)
    } else if name_is(nodes, j, "t") {
        match state.active_hyperlink.take() {
            Some(link) => {
                let ActiveHyperlink { begin_id, path, text } = link;
                let mut text = text;
                parse_text_node(nodes, j, style, &mut text)?;
                state.active_hyperlink = Some(ActiveHyperlink { begin_id, path, text });
                Ok(())
            },
            None => parse_text_node(nodes, j, style, &mut state.inlines),
        }
    } else {
        let mut m = owned("HWPX parser does not support hp:run child ");
        assert(xml_nodes_view(nodes@)[j as int] == nodes@[j as int]@);
        m.append(nodes[j].name.as_str());
        Err(CoreRsError::new(ErrorKind::UnsupportedFeature, m))
    }
}

/// Reads a run onto the state of its paragraph.
pub fn parse_run(
    nodes: &Vec<XmlNode>,
    r: usize,
    registry: &Registry,
    contract: ParagraphContract,
    is_heading: bool,
    state: &mut RunState,
) -> (res: Result<(), CoreRsError>)
    requires
        nodes_ok(nodes),
        r < nodes.len(),
    ensures
        match spec_parse_run(xml_nodes_view(nodes@), r as nat, registry@, contract, is_heading, old(state)@) {
            Ok(x) => res is Ok && final(state)@ == x,
            Err(e) => res matches Err(y) && y@ == e,
        },
{
    let ghost v = xml_nodes_view(nodes@);
    let char_pr_id = match required_u32_attr(nodes, r, "charPrIDRef", "hp:run") {
        Ok(x) => x,
        Err(e) => return Err(e),
    };
    let style = if contract.legacy_quote || is_heading { CharStyle::Plain } else { registry.char_style(char_pr_id) };
    match find_child(nodes, r, "tbl") {
        Some(tbl) => {
            if state.table.is_some() || state.inlines.len() > 0 {
                return Err(CoreRsError::from_str_detail(ErrorKind::InvalidHwpx, "table paragraph mixed with inline content"));
            }
            let t = match parse_table(nodes, tbl) {
                Ok(t) => t,
                Err(e) => return Err(e),
            };
            state.table = Some(t);
            Ok(())
        },
        None => {
            let ghost st0 = state@;
            let cs = element_children(nodes, r);
            let ghost cv = index_view(cs@);
            let mut k: usize = 0;
            while k < cs.len()
                invariant
                    k <= cs.len(),
                    nodes_ok(nodes),
                    v == xml_nodes_view(nodes@),
                    cv == index_view(cs@),
                    cv == spec_element_children(v, r as nat),
                    st0 == old(state)@,
                    spec_required_u32(v, r as nat, "charPrIDRef"@, "hp:run"@) == Ok::<u32, ErrorV>(char_pr_id),
                    first_named(v, spec_children(v, r as nat), "tbl"@) is None,
                    style == (if contract.legacy_quote || is_heading { CharStyle::Plain } else { char_style_of(registry@, char_pr_id) }),
                    forall|x: int| 0 <= x < cs.len() ==> cs[x] < nodes.len(),
                    spec_run_upto(v, cv, k as nat, st0, style) == Ok::<RunStateV, ErrorV>(state@),
                decreases cs.len() - k,
            {
                let j = cs[k];
                assert(cv[k as int] == j as nat);
                let ghost before = state@;
                match run_step(nodes, j, style, state) {
                    Ok(()) => {},
                    Err(e) => {
                        assert(spec_run_upto(v, cv, (k + 1) as nat, st0, style) == Err::<RunStateV, ErrorV>(e@));
                        proof { lemma_run_err(v, cv, (k + 1) as nat, cv.len(), st0, style); }
                        return Err(e);
                    },
                }
                k += 1;
            }
            Ok(())
        },
    }
}

proof fn lemma_paragraph_err(v: Seq<XmlNodeV>, cs: Seq<nat>, k: nat, n: nat, reg: RegistryV, contract: ParagraphContract, is_heading: bool)
    requires
        k <= n,
        spec_paragraph_upto(v, cs, k, reg, contract, is_heading) is Err,
    ensures
        spec_paragraph_upto(v, cs, n, reg, contract, is_heading) == spec_paragraph_upto(v, cs, k, reg, contract, is_heading),
    decreases n - k,
{
    if k < n {
        lemma_paragraph_err(v, cs, k, (n - 1) as nat, reg, contract, is_heading);
    }
}

/// A paragraph record: its quote depth, list level and block.
#[derive(Debug)]
pub struct ParagraphRecord {
    pub quote_depth: u8,
    pub list: Option<ListInfo>,
    pub block: Block,
}

pub open spec fn record_view(r: ParagraphRecord) -> RecordV {
    (r.quote_depth, r.list, r.block@)
}

/// Reads a paragraph into a record, or none when it holds nothing.
pub fn parse_paragraph(nodes: &Vec<XmlNode>, p: usize, registry: &Registry) -> (r: Result<Option<ParagraphRecord>, CoreRsError>)
    requires
        nodes_ok(nodes),
        p < nodes.len(),
    ensures
        match spec_parse_paragraph(xml_nodes_view(nodes@), p as nat, registry@) {
            Ok(None) => r matches Ok(None),
            Ok(Some(x)) => r matches Ok(Some(y)) && record_view(y) == x,
            Err(e) => r matches Err(y) && y@ == e,
        },
{
    let ghost v = xml_nodes_view(nodes@);
    let para_pr_id = match required_u32_attr(nodes, p, "paraPrIDRef", "hp:p") {
        Ok(x) => x,
        Err(e) => return Err(e),
    };
    let style_id = match required_u32_attr(nodes, p, "styleIDRef", "hp:p") {
        Ok(x) => x,
        Err(e) => return Err(e),
    };
    let contract = match registry.paragraph(para_pr_id) {
        Ok(c) => c,
        Err(e) => return Err(e),
    };
    let heading_level = registry.heading_level(style_id);
    let is_heading = heading_level.is_some();
    let mut inlines: Vec<Inline> = Vec::new();
    assert(inlines_view(inlines@) =~= Seq::<InlineV>::empty());
    let mut state = RunState { inlines, table: None, active_hyperlink: None };
    assert(state@ == empty_state());
    let cs = element_children(nodes, p);
    let ghost cv = index_view(cs@);
    let mut k: usize = 0;
    while k < cs.len()
        invariant
            k <= cs.len(),
            nodes_ok(nodes),
            v == xml_nodes_view(nodes@),
            cv == index_view(cs@),
            cv == spec_element_children(v, p as nat),
            registry@.paragraphs.contains_key(para_pr_id),
            contract == registry@.paragraphs[para_pr_id],
            spec_required_u32(v, p as nat, "paraPrIDRef"@, "hp:p"@) == Ok::<u32, ErrorV>(para_pr_id),
            spec_required_u32(v, p as nat, "styleIDRef"@, "hp:p"@) == Ok::<u32, ErrorV>(style_id),
            heading_level == heading_of(registry@, style_id),
            is_heading == heading_level is Some,
            forall|x: int| 0 <= x < cs.len() ==> cs[x] < nodes.len(),
            spec_paragraph_upto(v, cv, k as nat, registry@, contract, is_heading) == Ok::<RunStateV, ErrorV>(state@),
        decreases cs.len() - k,
    {
        let j = cs[k];
        assert(cv[k as int] == j as nat);
        let ghost before = state@;
        let failed: Option<CoreRsError> = if name_is(nodes, j, "run") {
            match parse_run(nodes, j, registry, contract, is_heading, &mut state) {
                Ok(()) => None,
                Err(e) => Some(e),
            }
        } else if name_is(nodes, j, "linesegarray") {
            None
        } else {
            let mut m = owned("HWPX parser does not support hp:p child ");
            assert(v[j as int] == nodes@[j as int]@);
            m.append(nodes[j].name.as_str());
            Some(CoreRsError::new(ErrorKind::UnsupportedFeature, m))
        };
        match failed {
            Some(e) => {
                assert(spec_paragraph_upto(v, cv, (k + 1) as nat, registry@, contract, is_heading) == Err::<RunStateV, ErrorV>(e@));
                proof { lemma_paragraph_err(v, cv, (k + 1) as nat, cv.len(), registry@, contract, is_heading); }
                return Err(e);
            },
            None => {},
        }
        k += 1;
    }
    if state.active_hyperlink.is_some() {
        return Err(CoreRsError::from_str_detail(ErrorKind::InvalidHwpx, "hyperlink field is missing hp:fieldEnd"));
    }
    let RunState { inlines, table, active_hyperlink: _ } = state;
    match table {
        Some(t) => {
            if contract.list.is_some() || contract.quote_depth > 0 {
                return Err(CoreRsError::from_str_detail(
                    ErrorKind::UnsupportedFeature,
                    "HWPX parser does not support quoted or list tables",
                ));
            }
            Ok(Some(ParagraphRecord { quote_depth: contract.quote_depth, list: contract.list, block: Block::Table(t) }))
        },
        None => {
            if inlines.len() == 0 {
                return Ok(None);
            }
            match heading_level {
                Some(level) => Ok(Some(ParagraphRecord {
                    quote_depth: contract.quote_depth,
                    list: contract.list,
                    block: Block::Heading { level, content: inlines },
                })),
                None => Ok(Some(ParagraphRecord { quote_depth: contract.quote_depth, list: contract.list, block: Block::Paragraph(inlines) })),
            }
        },
    }
}

proof fn lemma_records_err(v: Seq<XmlNodeV>, cs: Seq<nat>, k: nat, n: nat, reg: RegistryV)
    requires
        k <= n,
        spec_records_upto(v, cs, k, reg) is Err,
    ensures
        spec_records_upto(v, cs, n, reg) == spec_records_upto(v, cs, k, reg),
    decreases n - k,
{
    if k < n {
        lemma_records_err(v, cs, k, (n - 1) as nat, reg);
    }
}

pub open spec fn records_view(s: Seq<ParagraphRecord>) -> Seq<RecordV> {
    s.map_values(|r: ParagraphRecord| record_view(r))
}

/// The records of a section's paragraphs.
pub fn parse_records(nodes: &Vec<XmlNode>, root: usize, registry: &Registry) -> (r: Result<Vec<ParagraphRecord>, CoreRsError>)
    requires
        nodes_ok(nodes),
    ensures
        match spec_records_upto(xml_nodes_view(nodes@), spec_element_children(xml_nodes_view(nodes@), root as nat),
            spec_element_children(xml_nodes_view(nodes@), root as nat).len(), registry@) {
            Ok(x) => r matches Ok(y) && records_view(y@) == x,
            Err(e) => r matches Err(y) && y@ == e,
        },
{
    let ghost v = xml_nodes_view(nodes@);
    let cs = element_children(nodes, root);
    let ghost cv = index_view(cs@);
    let mut records: Vec<ParagraphRecord> = Vec::new();
    let mut k: usize = 0;
    assert(records_view(records@) =~= Seq::<RecordV>::empty());
    while k < cs.len()
        invariant
            k <= cs.len(),
            nodes_ok(nodes),
            v == xml_nodes_view(nodes@),
            cv == index_view(cs@),
            cv == spec_element_children(v, root as nat),
            forall|x: int| 0 <= x < cs.len() ==> cs[x] < nodes.len(),
            spec_records_upto(v, cv, k as nat, registry@) == Ok::<Seq<RecordV>, ErrorV>(records_view(records@)),
        decreases cs.len() - k,
    {
        let j = cs[k];
        assert(cv[k as int] == j as nat);
        if !name_is(nodes, j, "p") {
            let mut m = owned("HWPX parser does not support section child ");
            assert(v[j as int] == nodes@[j as int]@);
            m.append(nodes[j].name.as_str());
            let e = CoreRsError::new(ErrorKind::UnsupportedFeature, m);
            assert(spec_records_upto(v, cv, (k + 1) as nat, registry@) == Err::<Seq<RecordV>, ErrorV>(e@));
            proof { lemma_records_err(v, cv, (k + 1) as nat, cv.len(), registry@); }
            return Err(e);
        }
        match parse_paragraph(nodes, j, registry) {
            Ok(Some(record)) => {
                let ghost before = records_view(records@);
                let ghost rv = record_view(record);
                records.push(record);
                assert(records_view(records@) =~= before.push(rv));
            },
            Ok(None) => {},
            Err(e) => {
                proof { lemma_records_err(v, cv, (k + 1) as nat, cv.len(), registry@); }
                return Err(e);
            },
        }
        k += 1;
    }
    Ok(records)
}

/// The error of records left over, or of a reading that did not advance.
pub open spec fn unconsumed() -> ErrorV {
    invalid_hwpx("failed to consume all parsed HWPX records"@)
}

/// A list block of a kind with some items.
pub open spec fn list_block(kind: ListKind, items: Seq<Seq<BlockV>>) -> BlockV {
    BlockV::List(ListBlockV { ordered: kind == ListKind::Ordered, start_index: 1, items })
}

/// Whether a record continues a list of a kind at its depth or deeper: same quote
/// depth and a list level of that kind.
pub open spec fn continues_list(r: RecordV, d: u8, l: ListInfo) -> bool {
    r.0 == d && r.1 is Some && r.1->0.kind == l.kind
}

/// The blocks from record `i` on at quote depth `d`: a deeper record opens a quote
/// (one level at a time), a list record opens a list, any other record is its
/// block; a shallower record ends them.
pub open spec fn spec_blocks_loop(rs: Seq<RecordV>, i: nat, d: u8, acc: Seq<BlockV>) -> Result<(Seq<BlockV>, nat), ErrorV>
    decreases rs.len() - i, 255 - d, 2nat,
{
    if i >= rs.len() {
        Ok((acc, i))
    } else if rs[i as int].0 < d {
        Ok((acc, i))
    } else if rs[i as int].0 > d {
        if rs[i as int].0 != d + 1 {
            Err(unsupported_error("HWPX parser supports quote depth up to 2"@))
        } else {
            match spec_blocks_loop(rs, i, (d + 1) as u8, seq![]) {
                Err(e) => Err(e),
                Ok(inner) => if inner.1 <= i || inner.1 > rs.len() {
                    Err(unconsumed())
                } else {
                    spec_blocks_loop(rs, inner.1, d, acc.push(BlockV::BlockQuote(inner.0)))
                },
            }
        }
    } else if rs[i as int].1 is Some {
        let l = rs[i as int].1->0;
        match spec_list_loop(rs, i, d, l, seq![]) {
            Err(e) => Err(e),
            Ok(list) => if list.1 <= i || list.1 > rs.len() {
                Err(unconsumed())
            } else {
                spec_blocks_loop(rs, list.1, d, acc.push(list_block(l.kind, list.0)))
            },
        }
    } else {
        spec_blocks_loop(rs, i + 1, d, acc.push(rs[i as int].2))
    }
}

/// The items of a list from record `i` on: each record of the list's kind and depth
/// starts an item; a deeper one without a parent item is refused.
pub open spec fn spec_list_loop(rs: Seq<RecordV>, i: nat, d: u8, l: ListInfo, items: Seq<Seq<BlockV>>) -> Result<(Seq<Seq<BlockV>>, nat), ErrorV>
    decreases rs.len() - i, 255 - d, 0nat,
{
    if i >= rs.len() {
        Ok((items, i))
    } else if !continues_list(rs[i as int], d, l) || rs[i as int].1->0.depth < l.depth {
        Ok((items, i))
    } else if rs[i as int].1->0.depth > l.depth {
        Err(invalid_hwpx("list nesting cannot begin without a parent list item"@))
    } else {
        match spec_item_loop(rs, i + 1, d, l, seq![rs[i as int].2]) {
            Err(e) => Err(e),
            Ok(item) => if item.1 <= i || item.1 > rs.len() {
                Err(unconsumed())
            } else {
                spec_list_loop(rs, item.1, d, l, items.push(item.0))
            },
        }
    }
}

/// The rest of a list item from record `i` on: records one level deeper form nested
/// lists; anything else ends the item.
pub open spec fn spec_item_loop(rs: Seq<RecordV>, i: nat, d: u8, l: ListInfo, item: Seq<BlockV>) -> Result<(Seq<BlockV>, nat), ErrorV>
    decreases rs.len() - i, 255 - d, 1nat,
{
    if i >= rs.len() {
        Ok((item, i))
    } else if !continues_list(rs[i as int], d, l) || rs[i as int].1->0.depth <= l.depth {
        Ok((item, i))
    } else if rs[i as int].1->0.depth != l.depth + 1 {
        Err(unsupported_error("HWPX parser supports list depth up to 2"@))
    } else {
        let n = rs[i as int].1->0;
        match spec_list_loop(rs, i, d, n, seq![]) {
            Err(e) => Err(e),
            Ok(sub) => if sub.1 <= i || sub.1 > rs.len() {
                Err(unconsumed())
            } else {
                spec_item_loop(rs, sub.1, d, l, item.push(list_block(n.kind, sub.0)))
            },
        }
    }
}

/// The blocks of a section: its root must be a section element, its children
/// paragraphs; all records must be consumed.
pub open spec fn spec_parse_section(section_xml: Seq<char>, reg: RegistryV) -> Result<Seq<BlockV>, ErrorV> {
    match crate::utils::xml_reader::spec_xml_nodes(section_xml) {
        Err(m) => Err(invalid_hwpx("invalid Contents/section0.xml XML: "@ + m)),
        Ok(v) => {
            let root = spec_element_children(v, 0)[0];
            if node_name(v, root) != "sec"@ {
                Err(invalid_hwpx("Contents/section0.xml root element must be hs:sec"@))
            } else {
                let cs = spec_element_children(v, root);
                match spec_records_upto(v, cs, cs.len(), reg) {
                    Err(e) => Err(e),
                    Ok(rs) => match spec_blocks_loop(rs, 0, 0, seq![]) {
                        Err(e) => Err(e),
                        Ok(b) => if b.1 != rs.len() { Err(unconsumed()) } else { Ok(b.0) },
                    },
                }
            }
        },
    }
}

pub type RecordMeta = (u8, Option<ListInfo>);

pub open spec fn metas_match(m: Seq<RecordMeta>, rs: Seq<RecordV>) -> bool {
    m.len() == rs.len() && forall|k: int| 0 <= k < m.len() ==> (#[trigger] m[k]).0 == rs[k].0 && m[k].1 == rs[k].1
}

/// The blocks still to be taken, last record first.
pub open spec fn pending_match(p: Seq<Block>, rs: Seq<RecordV>, i: nat) -> bool {
    i <= rs.len() && p.len() == rs.len() - i && forall|k: int| 0 <= k < p.len() ==> (#[trigger] p[k])@ == rs[rs.len() - 1 - k].2
}

fn take_block(pending: &mut Vec<Block>, i: usize, Ghost(rs): Ghost<Seq<RecordV>>) -> (b: Block)
    requires
        pending_match(old(pending)@, rs, i as nat),
        i < rs.len(),
    ensures
        b@ == rs[i as int].2,
        pending_match(final(pending)@, rs, (i + 1) as nat),
{
    let b = pending.pop().unwrap();
    b
}

fn unconsumed_error() -> (e: CoreRsError)
    ensures
        e@ == unconsumed(),
{
    CoreRsError::from_str_detail(ErrorKind::InvalidHwpx, "failed to consume all parsed HWPX records")
}

fn parse_blocks(metas: &Vec<RecordMeta>, pending: &mut Vec<Block>, index: usize, depth: u8, Ghost(rs): Ghost<Seq<RecordV>>) -> (r: Result<(Vec<Block>, usize), CoreRsError>)
    requires
        metas_match(metas@, rs),
        pending_match(old(pending)@, rs, index as nat),
    ensures
        match spec_blocks_loop(rs, index as nat, depth, seq![]) {
            Ok(x) => r matches Ok(y) && blocks_view(y.0@) == x.0 && y.1 == x.1 && pending_match(final(pending)@, rs, y.1 as nat),
            Err(e) => r matches Err(y) && y@ == e,
        },
    decreases rs.len() - index, 255 - depth, 2nat,
{
    let mut blocks: Vec<Block> = Vec::new();
    let mut i = index;
    assert(blocks_view(blocks@) =~= Seq::<BlockV>::empty());
    loop
        invariant
            index <= i <= rs.len(),
            metas_match(metas@, rs),
            pending_match(pending@, rs, i as nat),
            spec_blocks_loop(rs, index as nat, depth, seq![]) == spec_blocks_loop(rs, i as nat, depth, blocks_view(blocks@)),
        decreases rs.len() - i,
    {
        if i >= metas.len() {
            return Ok((blocks, i));
        }
        let (qd, list) = metas[i];
        assert(metas@[i as int].0 == rs[i as int].0 && metas@[i as int].1 == rs[i as int].1);
        if qd < depth {
            return Ok((blocks, i));
        }
        if qd > depth {
            if qd != depth + 1 {
                return Err(CoreRsError::from_str_detail(ErrorKind::UnsupportedFeature, "HWPX parser supports quote depth up to 2"));
            }
            let (inner, i2) = match parse_blocks(metas, pending, i, depth + 1, Ghost(rs)) {
                Ok(x) => x,
                Err(e) => return Err(e),
            };
            if i2 <= i || i2 > metas.len() {
                return Err(unconsumed_error());
            }
            let ghost before = blocks_view(blocks@);
            let ghost iv = blocks_view(inner@);
            blocks.push(Block::BlockQuote(inner));
            assert(blocks_view(blocks@) == before.push(BlockV::BlockQuote(iv)));
            i = i2;
        } else {
            match list {
                Some(l) => {
                    let (lb, i2) = match parse_list(metas, pending, i, depth, l, Ghost(rs)) {
                        Ok(x) => x,
                        Err(e) => return Err(e),
                    };
                    if i2 <= i || i2 > metas.len() {
                        return Err(unconsumed_error());
                    }
                    blocks.push(Block::List(lb));
                    i = i2;
                },
                None => {
                    let b = take_block(pending, i, Ghost(rs));
                    blocks.push(b);
                    i = i + 1;
                },
            }
        }
    }
}

fn parse_list(metas: &Vec<RecordMeta>, pending: &mut Vec<Block>, index: usize, depth: u8, l: ListInfo, Ghost(rs): Ghost<Seq<RecordV>>) -> (r: Result<(ListBlock, usize), CoreRsError>)
    requires
        metas_match(metas@, rs),
        pending_match(old(pending)@, rs, index as nat),
    ensures
        match spec_list_loop(rs, index as nat, depth, l, seq![]) {
            Ok(x) => r matches Ok(y) && BlockV::List(crate::models::block::list_view(y.0)) == list_block(l.kind, x.0)
                && y.1 == x.1 && pending_match(final(pending)@, rs, y.1 as nat),
            Err(e) => r matches Err(y) && y@ == e,
        },
    decreases rs.len() - index, 255 - depth, 0nat,
{
    let mut items: Vec<ListItem> = Vec::new();
    let mut i = index;
    assert(items_view(items@) =~= Seq::<Seq<BlockV>>::empty());
    loop
        invariant
            index <= i <= rs.len(),
            metas_match(metas@, rs),
            pending_match(pending@, rs, i as nat),
            spec_list_loop(rs, index as nat, depth, l, seq![]) == spec_list_loop(rs, i as nat, depth, l, items_view(items@)),
        decreases rs.len() - i,
    {
        if i >= metas.len() {
            return Ok((ListBlock { ordered: l.kind == ListKind::Ordered, start_index: 1, items }, i));
        }
        let (qd, list) = metas[i];
        assert(metas@[i as int].0 == rs[i as int].0 && metas@[i as int].1 == rs[i as int].1);
        let info = match list {
            Some(x) => x,
            None => return Ok((ListBlock { ordered: l.kind == ListKind::Ordered, start_index: 1, items }, i)),
        };
        if qd != depth || info.kind != l.kind || info.depth < l.depth {
            return Ok((ListBlock { ordered: l.kind == ListKind::Ordered, start_index: 1, items }, i));
        }
        if info.depth > l.depth {
            return Err(CoreRsError::from_str_detail(ErrorKind::InvalidHwpx, "list nesting cannot begin without a parent list item"));
        }
        let b = take_block(pending, i, Ghost(rs));
        let mut first: Vec<Block> = Vec::new();
        first.push(b);
        assert(blocks_view(first@) =~= seq![rs[i as int].2]);
        let (item_blocks, i2) = match parse_item(metas, pending, i + 1, depth, l, first, Ghost(rs)) {
            Ok(x) => x,
            Err(e) => return Err(e),
        };
        if i2 <= i || i2 > metas.len() {
            return Err(unconsumed_error());
        }
        items.push(ListItem { blocks: item_blocks });
        i = i2;
    }
}

fn parse_item(
    metas: &Vec<RecordMeta>,
    pending: &mut Vec<Block>,
    index: usize,
    depth: u8,
    l: ListInfo,
    item: Vec<Block>,
    Ghost(rs): Ghost<Seq<RecordV>>,
) -> (r: Result<(Vec<Block>, usize), CoreRsError>)
    requires
        metas_match(metas@, rs),
        pending_match(old(pending)@, rs, index as nat),
    ensures
        match spec_item_loop(rs, index as nat, depth, l, blocks_view(item@)) {
            Ok(x) => r matches Ok(y) && blocks_view(y.0@) == x.0 && y.1 == x.1 && pending_match(final(pending)@, rs, y.1 as nat),
            Err(e) => r matches Err(y) && y@ == e,
        },
    decreases rs.len() - index, 255 - depth, 1nat,
{
    let mut blocks = item;
    let ghost start = blocks_view(blocks@);
    let mut i = index;
    loop
        invariant
            index <= i <= rs.len(),
            metas_match(metas@, rs),
            pending_match(pending@, rs, i as nat),
            start == blocks_view(item@),
            spec_item_loop(rs, index as nat, depth, l, start) == spec_item_loop(rs, i as nat, depth, l, blocks_view(blocks@)),
        decreases rs.len() - i,
    {
        if i >= metas.len() {
            return Ok((blocks, i));
        }
        let (qd, list) = metas[i];
        assert(metas@[i as int].0 == rs[i as int].0 && metas@[i as int].1 == rs[i as int].1);
        let info = match list {
            Some(x) => x,
            None => return Ok((blocks, i)),
        };
        if qd != depth || info.kind != l.kind || info.depth <= l.depth {
            return Ok((blocks, i));
        }
        if info.depth != l.depth + 1 {
            return Err(CoreRsError::from_str_detail(ErrorKind::UnsupportedFeature, "HWPX parser supports list depth up to 2"));
        }
        let (sub, i2) = match parse_list(metas, pending, i, depth, info, Ghost(rs)) {
            Ok(x) => x,
            Err(e) => return Err(e),
        };
        if i2 <= i || i2 > metas.len() {
            return Err(unconsumed_error());
        }
        blocks.push(Block::List(sub));
        i = i2;
    }
}

/// The blocks of a section part.
pub fn parse_section(section_xml: &str, registry: &Registry) -> (r: Result<Vec<Block>, CoreRsError>)
    ensures
        match spec_parse_section(section_xml@, registry@) {
            Ok(x) => r matches Ok(y) && blocks_view(y@) == x,
            Err(e) => r matches Err(y) && y@ == e,
        },
{
    let nodes = match crate::utils::xml_reader::read_xml(section_xml) {
        Ok(n) => n,
        Err(message) => {
            let mut m = owned("invalid Contents/section0.xml XML: ");
            m.append(message.as_str());
            return Err(CoreRsError::new(ErrorKind::InvalidHwpx, m));
        },
    };
    let roots = element_children(&nodes, 0);
    assert(index_view(roots@).len() > 0);
    let root = roots[0];
    assert(index_view(roots@)[0] == root as nat);
    if !name_is(&nodes, root, "sec") {
        return Err(CoreRsError::from_str_detail(ErrorKind::InvalidHwpx, "Contents/section0.xml root element must be hs:sec"));
    }
    let records = parse_records(&nodes, root, registry)?;
    let ghost rs = records_view(records@);
    let mut metas: Vec<RecordMeta> = Vec::new();
    let mut k: usize = 0;
    while k < records.len()
        invariant
            k <= records.len(),
            rs == records_view(records@),
            metas.len() == k,
            forall|x: int| 0 <= x < k ==> (#[trigger] metas@[x]).0 == rs[x].0 && metas@[x].1 == rs[x].1,
        decreases records.len() - k,
    {
        metas.push((records[k].quote_depth, records[k].list));
        k += 1;
    }
    let mut rest = records;
    let mut pending: Vec<Block> = Vec::new();
    while rest.len() > 0
        invariant
            rest.len() <= rs.len(),
            records_view(rest@) == rs.take(rest.len() as int),
            pending_match(pending@, rs, rest.len() as nat),
        decreases rest.len(),
    {
        let ghost before = rest@;
        let record = rest.pop().unwrap();
        assert(records_view(rest@) =~= rs.take(rest.len() as int)) by {
            assert(rest@ =~= before.drop_last());
        }
        assert(record_view(record) == rs[rest.len() as int]) by {
            assert(record == before.last());
            assert(records_view(before)[rest.len() as int] == record_view(before[rest.len() as int]));
        }
        pending.push(record.block);
    }
    let (blocks, i) = parse_blocks(&metas, &mut pending, 0, 0, Ghost(rs))?;
    if i != metas.len() {
        return Err(unconsumed_error());
    }
    Ok(blocks)
}

} // verus!
