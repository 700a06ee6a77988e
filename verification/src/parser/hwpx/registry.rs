//! The registry of an HWPX header part: for each paragraph property what it means
//! for the structure (quote depth, list kind and depth), which paragraph styles
//! are headings of which level, and which character properties are bold or
//! italic.
use vstd::prelude::*;
use std::collections::{BTreeMap, BTreeSet};
use crate::error::{CoreRsError, ErrorKind, ErrorV, err};
use crate::parser::hwpx::metadata::invalid_hwpx;
use crate::utils::text::{append_decimal, decimal, owned, str_eq};
use crate::utils::xml_reader::{
    XmlNode, XmlNodeV, attribute, descendants, find_child, find_descendant, first_named, nodes_ok,
    parse_unsigned, read_xml, required_u32_attr, spec_attribute, spec_children, spec_descendants,
    spec_parse_unsigned, spec_required_u32, spec_xml_nodes, xml_nodes_view, opt_string_view,
};

verus! {

broadcast use vstd::laws_cmp::group_laws_cmp, vstd::std_specs::btree::group_btree_axioms;

/// How a character property styles text.
#[derive(Debug, Clone, Copy, PartialEq, Eq, Structural)]
pub enum CharStyle {
    Plain,
    Bold,
    Italic,
}

/// The kind of a list.
#[derive(Debug, Clone, Copy, PartialEq, Eq, Structural)]
pub enum ListKind {
    Unordered,
    Ordered,
}

/// A list level that a paragraph property stands for.
#[derive(Debug, Clone, Copy, PartialEq, Eq, Structural)]
pub struct ListInfo {
    pub kind: ListKind,
    pub depth: u8,
}

/// What a paragraph property means for the structure of the document.
#[derive(Debug, Clone, Copy, PartialEq, Eq, Structural)]
pub struct ParagraphContract {
    pub quote_depth: u8,
    pub legacy_quote: bool,
    pub list: Option<ListInfo>,
}

/// The heading type of a paragraph property.
#[derive(Debug, Clone, Copy, PartialEq, Eq, Structural)]
pub enum HeadingType {
    NoHeading,
    Outline,
    Bullet,
    Number,
}

/// A paragraph property as the header defines it.
#[derive(Debug, Clone, Copy, PartialEq, Eq, Structural)]
pub struct ParaDefinition {
    pub id: u32,
    pub heading: HeadingType,
    pub heading_level: u8,
    pub heading_id_ref: u32,
    pub left_margin: Option<u32>,
    pub border_fill_id_ref: Option<u32>,
}

/// The registry of a header part.
#[derive(Debug)]
pub struct Registry {
    pub paragraphs: BTreeMap<u32, ParagraphContract>,
    pub headings: BTreeMap<u32, u8>,
    pub chars: BTreeMap<u32, CharStyle>,
}

pub struct RegistryV {
    pub paragraphs: Map<u32, ParagraphContract>,
    pub headings: Map<u32, u8>,
    pub chars: Map<u32, CharStyle>,
}

impl View for Registry {
    type V = RegistryV;

    open spec fn view(&self) -> RegistryV {
        RegistryV { paragraphs: self.paragraphs@, headings: self.headings@, chars: self.chars@ }
    }
}

pub open spec fn default_contract() -> ParagraphContract {
    ParagraphContract { quote_depth: 0, legacy_quote: false, list: None }
}

/// A number read from an optional text, or none when absent or unreadable.
pub open spec fn opt_number(o: Option<Seq<char>>, max: nat) -> Option<nat> {
    match o {
        Some(s) => match spec_parse_unsigned(s, max) {
            Ok(n) => Some(n),
            Err(_) => None,
        },
        None => None,
    }
}

/// An attribute of the first element of a local name among a node and its
/// descendants.
pub open spec fn descendant_attribute(v: Seq<XmlNodeV>, i: nat, element: Seq<char>, attr: Seq<char>) -> Option<Seq<char>> {
    match first_named(v, spec_descendants(v, i), element) {
        Some(h) => spec_attribute(v, h, attr),
        None => None,
    }
}

pub open spec fn heading_type_of(t: Option<Seq<char>>) -> HeadingType {
    if t == Some("OUTLINE"@) {
        HeadingType::Outline
    } else if t == Some("BULLET"@) {
        HeadingType::Bullet
    } else if t == Some("NUMBER"@) {
        HeadingType::Number
    } else {
        HeadingType::NoHeading
    }
}

pub open spec fn opt_u32(o: Option<nat>) -> Option<u32> {
    match o {
        Some(n) => Some(n as u32),
        None => None,
    }
}

/// The definition that a `paraPr` element gives: its id (required), the type,
/// level and reference of its first `heading`, the value of its first `left`
/// margin and the border fill of its first `border`.
pub open spec fn spec_para_definition(v: Seq<XmlNodeV>, n: nat) -> Result<ParaDefinition, ErrorV> {
    match spec_required_u32(v, n, "id"@, "hh:paraPr"@) {
        Err(e) => Err(e),
        Ok(id) => Ok(ParaDefinition {
            id,
            heading: heading_type_of(descendant_attribute(v, n, "heading"@, "type"@)),
            heading_level: match opt_number(descendant_attribute(v, n, "heading"@, "level"@), 255) {
                Some(l) => l as u8,
                None => 0,
            },
            heading_id_ref: match opt_number(descendant_attribute(v, n, "heading"@, "idRef"@), u32::MAX as nat) {
                Some(r) => r as u32,
                None => 0,
            },
            left_margin: opt_u32(opt_number(descendant_attribute(v, n, "left"@, "value"@), u32::MAX as nat)),
            border_fill_id_ref: opt_u32(opt_number(descendant_attribute(v, n, "border"@, "borderFillIDRef"@), u32::MAX as nat)),
        }),
    }
}

pub open spec fn is_named(v: Seq<XmlNodeV>, j: nat, name: Seq<char>) -> bool {
    v[j as int].is_element && v[j as int].name == name
}

/// The definitions of the `paraPr` elements among the first `k` of some nodes.
pub open spec fn spec_para_defs_upto(v: Seq<XmlNodeV>, ds: Seq<nat>, k: nat) -> Result<Seq<ParaDefinition>, ErrorV>
    decreases k,
{
    if k == 0 {
        Ok(seq![])
    } else {
        match spec_para_defs_upto(v, ds, (k - 1) as nat) {
            Err(e) => Err(e),
            Ok(defs) => if is_named(v, ds[k - 1], "paraPr"@) {
                match spec_para_definition(v, ds[k - 1]) {
                    Err(e) => Err(e),
                    Ok(d) => Ok(defs.push(d)),
                }
            } else {
                Ok(defs)
            },
        }
    }
}

/// The definitions by id; a later definition of an id replaces an earlier one.
pub open spec fn defs_by_id(defs: Seq<ParaDefinition>) -> Map<u32, ParaDefinition>
    decreases defs.len(),
{
    if defs.len() == 0 {
        Map::empty()
    } else {
        defs_by_id(defs.drop_last()).insert(defs.last().id, defs.last())
    }
}

pub open spec fn unknown_style_para(style_id: u32, para: u32) -> ErrorV {
    invalid_hwpx("style "@ + decimal(style_id as nat) + " references unknown paraPrIDRef "@ + decimal(para as nat))
}

pub open spec fn saturating_inc(l: u8) -> u8 {
    if l == 255 { 255 } else { (l + 1) as u8 }
}

/// The heading levels of the paragraph styles among the first `k` of some nodes:
/// a `style` of type `PARA` whose paragraph property is an outline heading of
/// level `l` is a heading of level `l + 1`.
pub open spec fn spec_headings_upto(
    v: Seq<XmlNodeV>,
    ds: Seq<nat>,
    k: nat,
    by_id: Map<u32, ParaDefinition>,
) -> Result<Map<u32, u8>, ErrorV>
    decreases k,
{
    if k == 0 {
        Ok(Map::empty())
    } else {
        match spec_headings_upto(v, ds, (k - 1) as nat, by_id) {
            Err(e) => Err(e),
            Ok(m) => {
                let j = ds[k - 1];
                if !is_named(v, j, "style"@) || spec_attribute(v, j, "type"@) != Some("PARA"@) {
                    Ok(m)
                } else {
                    match spec_required_u32(v, j, "id"@, "hh:style"@) {
                        Err(e) => Err(e),
                        Ok(style_id) => match spec_required_u32(v, j, "paraPrIDRef"@, "hh:style"@) {
                            Err(e) => Err(e),
                            Ok(para) => if !by_id.contains_key(para) {
                                Err(unknown_style_para(style_id, para))
                            } else if by_id[para].heading == HeadingType::Outline {
                                Ok(m.insert(style_id, saturating_inc(by_id[para].heading_level)))
                            } else {
                                Ok(m)
                            },
                        },
                    }
                }
            },
        }
    }
}

/// Whether a node has an element child of a local name.
pub open spec fn has_child_named(v: Seq<XmlNodeV>, j: nat, name: Seq<char>) -> bool {
    first_named(v, spec_children(v, j), name) is Some
}

/// The character styles among the first `k` of some nodes: a `charPr` with a
/// `bold` child is bold, else with an `italic` child italic, else plain.
pub open spec fn spec_chars_upto(v: Seq<XmlNodeV>, ds: Seq<nat>, k: nat) -> Result<Map<u32, CharStyle>, ErrorV>
    decreases k,
{
    if k == 0 {
        Ok(Map::empty())
    } else {
        match spec_chars_upto(v, ds, (k - 1) as nat) {
            Err(e) => Err(e),
            Ok(m) => {
                let j = ds[k - 1];
                if !is_named(v, j, "charPr"@) {
                    Ok(m)
                } else {
                    match spec_required_u32(v, j, "id"@, "hh:charPr"@) {
                        Err(e) => Err(e),
                        Ok(id) => Ok(m.insert(
                            id,
                            if has_child_named(v, j, "bold"@) {
                                CharStyle::Bold
                            } else if has_child_named(v, j, "italic"@) {
                                CharStyle::Italic
                            } else {
                                CharStyle::Plain
                            },
                        )),
                    }
                }
            },
        }
    }
}

/// The ids of the elements of a local name among the first `k` of some nodes.
pub open spec fn spec_ids_upto(v: Seq<XmlNodeV>, ds: Seq<nat>, k: nat, name: Seq<char>) -> Result<Set<u32>, ErrorV>
    decreases k,
{
    if k == 0 {
        Ok(Set::empty())
    } else {
        match spec_ids_upto(v, ds, (k - 1) as nat, name) {
            Err(e) => Err(e),
            Ok(s) => if !is_named(v, ds[k - 1], name) {
                Ok(s)
            } else {
                match spec_required_u32(v, ds[k - 1], "id"@, name) {
                    Err(e) => Err(e),
                    Ok(id) => Ok(s.insert(id)),
                }
            },
        }
    }
}

/// Every defined paragraph property starts without structure.
pub open spec fn initial_contracts(defs: Seq<ParaDefinition>) -> Map<u32, ParagraphContract>
    decreases defs.len(),
{
    if defs.len() == 0 {
        Map::empty()
    } else {
        initial_contracts(defs.drop_last()).insert(defs.last().id, default_contract())
    }
}

/// The kinds of paragraph properties that carry structure: modern quotes (border
/// fill 4), bullet headings and numbered headings.
#[derive(Debug, Clone, Copy, PartialEq, Eq, Structural)]
pub enum DefFilter {
    ModernQuote,
    Bullet,
    Number,
}

pub open spec fn keeps(f: DefFilter, d: ParaDefinition) -> bool {
    match f {
        DefFilter::ModernQuote => d.border_fill_id_ref == Some(4u32),
        DefFilter::Bullet => d.heading == HeadingType::Bullet,
        DefFilter::Number => d.heading == HeadingType::Number,
    }
}

/// The definitions of a kind, in order.
pub open spec fn defs_where(defs: Seq<ParaDefinition>, f: DefFilter) -> Seq<ParaDefinition>
    decreases defs.len(),
{
    if defs.len() == 0 {
        seq![]
    } else {
        let prev = defs_where(defs.drop_last(), f);
        if keeps(f, defs.last()) { prev.push(defs.last()) } else { prev }
    }
}

/// The order of a definition by its left margin; one without a margin goes last.
pub open spec fn margin_key(d: ParaDefinition) -> u32 {
    match d.left_margin {
        Some(m) => m,
        None => u32::MAX,
    }
}

/// At most two definitions ordered by their left margins, the first first among
/// equals.
pub open spec fn by_margin(q: Seq<ParaDefinition>) -> Seq<ParaDefinition> {
    if q.len() == 2 && margin_key(q[1]) < margin_key(q[0]) { seq![q[1], q[0]] } else { q }
}

/// A contract with a changed quote depth.
pub open spec fn with_quote(m: Map<u32, ParagraphContract>, id: u32, depth: u8) -> Map<u32, ParagraphContract> {
    if m.contains_key(id) { m.insert(id, ParagraphContract { quote_depth: depth, ..m[id] }) } else { m }
}

/// A contract with a list level.
pub open spec fn with_list(m: Map<u32, ParagraphContract>, id: u32, kind: ListKind, depth: u8) -> Map<u32, ParagraphContract> {
    if m.contains_key(id) { m.insert(id, ParagraphContract { list: Some(ListInfo { kind, depth }), ..m[id] }) } else { m }
}

/// The first quote level for the first definition, the second for the second.
pub open spec fn assign_quotes(m: Map<u32, ParagraphContract>, q: Seq<ParaDefinition>) -> Map<u32, ParagraphContract> {
    let m1 = if q.len() > 0 { with_quote(m, q[0].id, 1) } else { m };
    if q.len() > 1 { with_quote(m1, q[1].id, 2) } else { m1 }
}

/// The first list level for the first definition, the second for the second.
pub open spec fn assign_lists(m: Map<u32, ParagraphContract>, q: Seq<ParaDefinition>, kind: ListKind) -> Map<u32, ParagraphContract> {
    let m1 = if q.len() > 0 { with_list(m, q[0].id, kind, 1) } else { m };
    if q.len() > 1 { with_list(m1, q[1].id, kind, 2) } else { m1 }
}

/// Whether a definition marks a legacy quote: border fill 3, no heading, and a left
/// margin of at least 2000.
pub open spec fn is_legacy_quote(d: ParaDefinition) -> bool {
    d.border_fill_id_ref == Some(3u32) && d.heading == HeadingType::NoHeading
        && match d.left_margin {
            Some(l) => l >= 2000,
            None => false,
        }
}

/// The legacy quote contracts of the first `k` definitions.
pub open spec fn legacy_quotes(m: Map<u32, ParagraphContract>, defs: Seq<ParaDefinition>) -> Map<u32, ParagraphContract>
    decreases defs.len(),
{
    if defs.len() == 0 {
        m
    } else {
        let prev = legacy_quotes(m, defs.drop_last());
        let d = defs.last();
        if is_legacy_quote(d) && prev.contains_key(d.id) {
            prev.insert(d.id, ParagraphContract { quote_depth: 1, legacy_quote: true, ..prev[d.id] })
        } else {
            prev
        }
    }
}

pub open spec fn unsupported_error(detail: Seq<char>) -> ErrorV {
    err(ErrorKind::UnsupportedFeature, detail)
}

/// Quote contracts: the paragraph properties with border fill 4 are quote levels
/// one and two by their margins (more than two are refused); legacy quotes are
/// quote level one.
pub open spec fn spec_quote_contracts(m: Map<u32, ParagraphContract>, defs: Seq<ParaDefinition>) -> Result<Map<u32, ParagraphContract>, ErrorV> {
    let modern = defs_where(defs, DefFilter::ModernQuote);
    if modern.len() > 2 {
        Err(unsupported_error("HWPX parser supports quote depth up to 2"@))
    } else {
        Ok(legacy_quotes(assign_quotes(m, by_margin(modern)), defs))
    }
}

/// Unordered list contracts: bullet headings are list levels one and two by their
/// margins; they need bullet 1, and more than two are refused.
pub open spec fn spec_unordered_contracts(m: Map<u32, ParagraphContract>, defs: Seq<ParaDefinition>, bullets: Set<u32>) -> Result<Map<u32, ParagraphContract>, ErrorV> {
    let q = defs_where(defs, DefFilter::Bullet);
    if q.len() == 0 {
        Ok(m)
    } else if !bullets.contains(1) {
        Err(invalid_hwpx("bullet paragraph contract is missing hh:bullet id=\"1\""@))
    } else if q.len() > 2 {
        Err(unsupported_error("HWPX parser supports unordered list depth up to 2"@))
    } else {
        Ok(assign_lists(m, by_margin(q), ListKind::Unordered))
    }
}

/// The first numbered heading whose numbering is missing.
pub open spec fn first_missing_numbering(q: Seq<ParaDefinition>, numberings: Set<u32>) -> Option<u32>
    decreases q.len(),
{
    if q.len() == 0 {
        None
    } else if !numberings.contains(q[0].heading_id_ref) {
        Some(q[0].heading_id_ref)
    } else {
        first_missing_numbering(q.drop_first(), numberings)
    }
}

/// Ordered list contracts: numbered headings are list levels one and two by their
/// margins; each needs its numbering, and more than two are refused.
pub open spec fn spec_ordered_contracts(m: Map<u32, ParagraphContract>, defs: Seq<ParaDefinition>, numberings: Set<u32>) -> Result<Map<u32, ParagraphContract>, ErrorV> {
    let q = defs_where(defs, DefFilter::Number);
    if q.len() == 0 {
        Ok(m)
    } else if first_missing_numbering(q, numberings) is Some {
        Err(invalid_hwpx(
            "ordered list paragraph contract references missing numbering "@
                + decimal(first_missing_numbering(q, numberings)->0 as nat),
        ))
    } else if q.len() > 2 {
        Err(unsupported_error("HWPX parser supports ordered list depth up to 2"@))
    } else {
        Ok(assign_lists(m, by_margin(q), ListKind::Ordered))
    }
}

/// The registry of a header part.
pub open spec fn spec_parse_registry(header_xml: Seq<char>) -> Result<RegistryV, ErrorV> {
    match spec_xml_nodes(header_xml) {
        Err(m) => Err(invalid_hwpx("invalid Contents/header.xml XML: "@ + m)),
        Ok(v) => {
            let ds = spec_descendants(v, 0);
            match spec_para_defs_upto(v, ds, ds.len()) {
                Err(e) => Err(e),
                Ok(defs) => match spec_headings_upto(v, ds, ds.len(), defs_by_id(defs)) {
                    Err(e) => Err(e),
                    Ok(headings) => match spec_chars_upto(v, ds, ds.len()) {
                        Err(e) => Err(e),
                        Ok(chars) => match spec_ids_upto(v, ds, ds.len(), "bullet"@) {
                            Err(e) => Err(e),
                            Ok(bullets) => match spec_ids_upto(v, ds, ds.len(), "numbering"@) {
                                Err(e) => Err(e),
                                Ok(numberings) => match spec_quote_contracts(initial_contracts(defs), defs) {
                                    Err(e) => Err(e),
                                    Ok(m1) => match spec_unordered_contracts(m1, defs, bullets) {
                                        Err(e) => Err(e),
                                        Ok(m2) => match spec_ordered_contracts(m2, defs, numberings) {
                                            Err(e) => Err(e),
                                            Ok(m3) => Ok(RegistryV { paragraphs: m3, headings, chars }),
                                        },
                                    },
                                },
                            },
                        },
                    },
                },
            }
        },
    }
}

fn descendant_attr(nodes: &Vec<XmlNode>, n: usize, element: &str, attr: &str) -> (r: Option<String>)
    requires
        nodes_ok(nodes),
    ensures
        opt_string_view(r) == descendant_attribute(xml_nodes_view(nodes@), n as nat, element@, attr@),
{
    match find_descendant(nodes, n, element) {
        Some(h) => attribute(nodes, h, attr),
        None => None,
    }
}

fn number_of(o: Option<String>, max: u64) -> (r: Option<u64>)
    ensures
        match opt_number(opt_string_view(o), max as nat) {
            Some(n) => n <= max && r == Some(n as u64),
            None => r is None,
        },
{
    match o {
        Some(s) => match parse_unsigned(s.as_str(), max) {
            Ok(n) => Some(n),
            Err(_) => None,
        },
        None => None,
    }
}

fn heading_type(t: Option<String>) -> (h: HeadingType)
    ensures
        h == heading_type_of(opt_string_view(t)),
{
    match t {
        Some(s) => {
            if str_eq(s.as_str(), "OUTLINE") {
                HeadingType::Outline
            } else if str_eq(s.as_str(), "BULLET") {
                HeadingType::Bullet
            } else if str_eq(s.as_str(), "NUMBER") {
                HeadingType::Number
            } else {
                HeadingType::NoHeading
            }
        },
        None => HeadingType::NoHeading,
    }
}

fn para_definition(nodes: &Vec<XmlNode>, n: usize) -> (r: Result<ParaDefinition, CoreRsError>)
    requires
        nodes_ok(nodes),
        n < nodes.len(),
    ensures
        match spec_para_definition(xml_nodes_view(nodes@), n as nat) {
            Ok(d) => r == Ok::<ParaDefinition, CoreRsError>(d),
            Err(e) => r matches Err(x) && x@ == e,
        },
{
    let id = match required_u32_attr(nodes, n, "id", "hh:paraPr") {
        Ok(x) => x,
        Err(e) => return Err(e),
    };
    let heading = heading_type(descendant_attr(nodes, n, "heading", "type"));
    let heading_level = match number_of(descendant_attr(nodes, n, "heading", "level"), 255) {
        Some(l) => l as u8,
        None => 0,
    };
    let heading_id_ref = match number_of(descendant_attr(nodes, n, "heading", "idRef"), 4294967295) {
        Some(l) => l as u32,
        None => 0,
    };
    let left_margin = match number_of(descendant_attr(nodes, n, "left", "value"), 4294967295) {
        Some(l) => Some(l as u32),
        None => None,
    };
    let border_fill_id_ref = match number_of(descendant_attr(nodes, n, "border", "borderFillIDRef"), 4294967295) {
        Some(l) => Some(l as u32),
        None => None,
    };
    Ok(ParaDefinition { id, heading, heading_level, heading_id_ref, left_margin, border_fill_id_ref })
}

pub open spec fn index_view(s: Seq<usize>) -> Seq<nat> {
    s.map_values(|x: usize| x as nat)
}

fn is_element_named(nodes: &Vec<XmlNode>, j: usize, name: &str) -> (b: bool)
    requires
        j < nodes.len(),
    ensures
        b == is_named(xml_nodes_view(nodes@), j as nat, name@),
{
    assert(xml_nodes_view(nodes@)[j as int] == nodes@[j as int]@);
    nodes[j].is_element && str_eq(nodes[j].name.as_str(), name)
}

proof fn lemma_para_defs_err(v: Seq<XmlNodeV>, ds: Seq<nat>, k: nat, n: nat)
    requires
        k <= n,
        spec_para_defs_upto(v, ds, k) is Err,
    ensures
        spec_para_defs_upto(v, ds, n) == spec_para_defs_upto(v, ds, k),
    decreases n - k,
{
    if k < n {
        lemma_para_defs_err(v, ds, k, (n - 1) as nat);
    }
}

fn para_definitions(nodes: &Vec<XmlNode>, ds: &Vec<usize>) -> (r: Result<Vec<ParaDefinition>, CoreRsError>)
    requires
        nodes_ok(nodes),
        forall|x: int| 0 <= x < ds.len() ==> ds[x] < nodes.len(),
    ensures
        match spec_para_defs_upto(xml_nodes_view(nodes@), index_view(ds@), ds.len() as nat) {
            Ok(d) => r matches Ok(x) && x@ == d,
            Err(e) => r matches Err(x) && x@ == e,
        },
{
    let ghost v = xml_nodes_view(nodes@);
    let ghost dv = index_view(ds@);
    let mut defs: Vec<ParaDefinition> = Vec::new();
    let mut k: usize = 0;
    while k < ds.len()
        invariant
            k <= ds.len(),
            v == xml_nodes_view(nodes@),
            dv == index_view(ds@),
            nodes_ok(nodes),
            forall|x: int| 0 <= x < ds.len() ==> ds[x] < nodes.len(),
            spec_para_defs_upto(v, dv, k as nat) == Ok::<Seq<ParaDefinition>, ErrorV>(defs@),
        decreases ds.len() - k,
    {
        let j = ds[k];
        assert(dv[k as int] == j as nat);
        if is_element_named(nodes, j, "paraPr") {
            match para_definition(nodes, j) {
                Ok(d) => defs.push(d),
                Err(e) => {
                    proof { lemma_para_defs_err(v, dv, (k + 1) as nat, ds.len() as nat); }
                    return Err(e);
                },
            }
        }
        k += 1;
    }
    Ok(defs)
}

fn definitions_by_id(defs: &Vec<ParaDefinition>) -> (m: BTreeMap<u32, ParaDefinition>)
    ensures
        m@ == defs_by_id(defs@),
{
    let mut m: BTreeMap<u32, ParaDefinition> = BTreeMap::new();
    let mut k: usize = 0;
    while k < defs.len()
        invariant
            k <= defs.len(),
            m@ == defs_by_id(defs@.take(k as int)),
        decreases defs.len() - k,
    {
        assert(defs@.take(k + 1).drop_last() =~= defs@.take(k as int));
        m.insert(defs[k].id, defs[k]);
        k += 1;
    }
    assert(defs@.take(defs.len() as int) =~= defs@);
    m
}

fn unknown_style_error(style_id: u32, para: u32) -> (e: CoreRsError)
    ensures
        e@ == unknown_style_para(style_id, para),
{
    let mut m = owned("style ");
    append_decimal(&mut m, style_id as u64);
    m.append(" references unknown paraPrIDRef ");
    append_decimal(&mut m, para as u64);
    CoreRsError::new(ErrorKind::InvalidHwpx, m)
}

proof fn lemma_headings_err(v: Seq<XmlNodeV>, ds: Seq<nat>, k: nat, n: nat, by_id: Map<u32, ParaDefinition>)
    requires
        k <= n,
        spec_headings_upto(v, ds, k, by_id) is Err,
    ensures
        spec_headings_upto(v, ds, n, by_id) == spec_headings_upto(v, ds, k, by_id),
    decreases n - k,
{
    if k < n {
        lemma_headings_err(v, ds, k, (n - 1) as nat, by_id);
    }
}

fn is_para_style(nodes: &Vec<XmlNode>, j: usize) -> (b: bool)
    requires
        j < nodes.len(),
    ensures
        b == (is_named(xml_nodes_view(nodes@), j as nat, "style"@)
            && spec_attribute(xml_nodes_view(nodes@), j as nat, "type"@) == Some("PARA"@)),
{
    if !is_element_named(nodes, j, "style") {
        return false;
    }
    match attribute(nodes, j, "type") {
        Some(t) => str_eq(t.as_str(), "PARA"),
        None => false,
    }
}

fn style_heading_levels(nodes: &Vec<XmlNode>, ds: &Vec<usize>, defs: &Vec<ParaDefinition>) -> (r: Result<BTreeMap<u32, u8>, CoreRsError>)
    requires
        forall|x: int| 0 <= x < ds.len() ==> ds[x] < nodes.len(),
    ensures
        match spec_headings_upto(xml_nodes_view(nodes@), index_view(ds@), ds.len() as nat, defs_by_id(defs@)) {
            Ok(m) => r matches Ok(x) && x@ == m,
            Err(e) => r matches Err(x) && x@ == e,
        },
{
    let ghost v = xml_nodes_view(nodes@);
    let ghost dv = index_view(ds@);
    let by_id = definitions_by_id(defs);
    let mut headings: BTreeMap<u32, u8> = BTreeMap::new();
    let mut k: usize = 0;
    while k < ds.len()
        invariant
            k <= ds.len(),
            v == xml_nodes_view(nodes@),
            dv == index_view(ds@),
            by_id@ == defs_by_id(defs@),
            forall|x: int| 0 <= x < ds.len() ==> ds[x] < nodes.len(),
            spec_headings_upto(v, dv, k as nat, by_id@) == Ok::<Map<u32, u8>, ErrorV>(headings@),
        decreases ds.len() - k,
    {
        let j = ds[k];
        assert(dv[k as int] == j as nat);
        if is_para_style(nodes, j) {
            let style_id = match required_u32_attr(nodes, j, "id", "hh:style") {
                Ok(x) => x,
                Err(e) => {
                    proof { lemma_headings_err(v, dv, (k + 1) as nat, ds.len() as nat, by_id@); }
                    return Err(e);
                },
            };
            let para = match required_u32_attr(nodes, j, "paraPrIDRef", "hh:style") {
                Ok(x) => x,
                Err(e) => {
                    proof { lemma_headings_err(v, dv, (k + 1) as nat, ds.len() as nat, by_id@); }
                    return Err(e);
                },
            };
            match by_id.get(&para) {
                None => {
                    proof { lemma_headings_err(v, dv, (k + 1) as nat, ds.len() as nat, by_id@); }
                    return Err(unknown_style_error(style_id, para));
                },
                Some(d) => {
                    if d.heading == HeadingType::Outline {
                        let level = if d.heading_level == 255 { 255u8 } else { d.heading_level + 1 };
                        headings.insert(style_id, level);
                    }
                },
            }
        }
        k += 1;
    }
    Ok(headings)
}

fn has_child_element(nodes: &Vec<XmlNode>, j: usize, name: &str) -> (b: bool)
    ensures
        b == has_child_named(xml_nodes_view(nodes@), j as nat, name@),
{
    find_child(nodes, j, name).is_some()
}

proof fn lemma_chars_err(v: Seq<XmlNodeV>, ds: Seq<nat>, k: nat, n: nat)
    requires
        k <= n,
        spec_chars_upto(v, ds, k) is Err,
    ensures
        spec_chars_upto(v, ds, n) == spec_chars_upto(v, ds, k),
    decreases n - k,
{
    if k < n {
        lemma_chars_err(v, ds, k, (n - 1) as nat);
    }
}

fn char_styles(nodes: &Vec<XmlNode>, ds: &Vec<usize>) -> (r: Result<BTreeMap<u32, CharStyle>, CoreRsError>)
    requires
        forall|x: int| 0 <= x < ds.len() ==> ds[x] < nodes.len(),
    ensures
        match spec_chars_upto(xml_nodes_view(nodes@), index_view(ds@), ds.len() as nat) {
            Ok(m) => r matches Ok(x) && x@ == m,
            Err(e) => r matches Err(x) && x@ == e,
        },
{
    let ghost v = xml_nodes_view(nodes@);
    let ghost dv = index_view(ds@);
    let mut chars: BTreeMap<u32, CharStyle> = BTreeMap::new();
    let mut k: usize = 0;
    while k < ds.len()
        invariant
            k <= ds.len(),
            v == xml_nodes_view(nodes@),
            dv == index_view(ds@),
            forall|x: int| 0 <= x < ds.len() ==> ds[x] < nodes.len(),
            spec_chars_upto(v, dv, k as nat) == Ok::<Map<u32, CharStyle>, ErrorV>(chars@),
        decreases ds.len() - k,
    {
        let j = ds[k];
        assert(dv[k as int] == j as nat);
        if is_element_named(nodes, j, "charPr") {
            let id = match required_u32_attr(nodes, j, "id", "hh:charPr") {
                Ok(x) => x,
                Err(e) => {
                    proof { lemma_chars_err(v, dv, (k + 1) as nat, ds.len() as nat); }
                    return Err(e);
                },
            };
            let style = if has_child_element(nodes, j, "bold") {
                CharStyle::Bold
            } else if has_child_element(nodes, j, "italic") {
                CharStyle::Italic
            } else {
                CharStyle::Plain
            };
            chars.insert(id, style);
        }
        k += 1;
    }
    Ok(chars)
}

proof fn lemma_ids_err(v: Seq<XmlNodeV>, ds: Seq<nat>, k: nat, n: nat, name: Seq<char>)
    requires
        k <= n,
        spec_ids_upto(v, ds, k, name) is Err,
    ensures
        spec_ids_upto(v, ds, n, name) == spec_ids_upto(v, ds, k, name),
    decreases n - k,
{
    if k < n {
        lemma_ids_err(v, ds, k, (n - 1) as nat, name);
    }
}

fn collect_element_ids(nodes: &Vec<XmlNode>, ds: &Vec<usize>, name: &str) -> (r: Result<BTreeSet<u32>, CoreRsError>)
    requires
        forall|x: int| 0 <= x < ds.len() ==> ds[x] < nodes.len(),
    ensures
        match spec_ids_upto(xml_nodes_view(nodes@), index_view(ds@), ds.len() as nat, name@) {
            Ok(s) => r matches Ok(x) && x@ == s,
            Err(e) => r matches Err(x) && x@ == e,
        },
{
    let ghost v = xml_nodes_view(nodes@);
    let ghost dv = index_view(ds@);
    let mut ids: BTreeSet<u32> = BTreeSet::new();
    let mut k: usize = 0;
    while k < ds.len()
        invariant
            k <= ds.len(),
            v == xml_nodes_view(nodes@),
            dv == index_view(ds@),
            forall|x: int| 0 <= x < ds.len() ==> ds[x] < nodes.len(),
            spec_ids_upto(v, dv, k as nat, name@) == Ok::<Set<u32>, ErrorV>(ids@),
        decreases ds.len() - k,
    {
        let j = ds[k];
        assert(dv[k as int] == j as nat);
        if is_element_named(nodes, j, name) {
            let id = match required_u32_attr(nodes, j, "id", name) {
                Ok(x) => x,
                Err(e) => {
                    proof { lemma_ids_err(v, dv, (k + 1) as nat, ds.len() as nat, name@); }
                    return Err(e);
                },
            };
            ids.insert(id);
        }
        k += 1;
    }
    Ok(ids)
}

fn keeps_exec(f: DefFilter, d: &ParaDefinition) -> (b: bool)
    ensures
        b == keeps(f, *d),
{
    match f {
        DefFilter::ModernQuote => d.border_fill_id_ref == Some(4u32),
        DefFilter::Bullet => d.heading == HeadingType::Bullet,
        DefFilter::Number => d.heading == HeadingType::Number,
    }
}

/// The definitions of a kind, ordered by their left margins when there are two.
fn definitions_of(defs: &Vec<ParaDefinition>, f: DefFilter) -> (q: Vec<ParaDefinition>)
    ensures
        q@ == defs_where(defs@, f),
{
    let mut q: Vec<ParaDefinition> = Vec::new();
    let mut k: usize = 0;
    while k < defs.len()
        invariant
            k <= defs.len(),
            q@ == defs_where(defs@.take(k as int), f),
        decreases defs.len() - k,
    {
        assert(defs@.take(k + 1).drop_last() =~= defs@.take(k as int));
        if keeps_exec(f, &defs[k]) {
            q.push(defs[k]);
        }
        k += 1;
    }
    assert(defs@.take(defs.len() as int) =~= defs@);
    q
}

fn key_of(d: &ParaDefinition) -> (k: u32)
    ensures
        k == margin_key(*d),
{
    match d.left_margin {
        Some(m) => m,
        None => 4294967295,
    }
}

fn ordered_by_margin(q: Vec<ParaDefinition>) -> (r: Vec<ParaDefinition>)
    ensures
        r@ == by_margin(q@),
{
    if q.len() == 2 && key_of(&q[1]) < key_of(&q[0]) {
        let mut r: Vec<ParaDefinition> = Vec::new();
        r.push(q[1]);
        r.push(q[0]);
        assert(r@ =~= seq![q@[1], q@[0]]);
        r
    } else {
        q
    }
}

fn set_quote(m: &mut BTreeMap<u32, ParagraphContract>, id: u32, depth: u8)
    ensures
        final(m)@ == with_quote(old(m)@, id, depth),
{
    match m.get(&id) {
        Some(c) => {
            let updated = ParagraphContract { quote_depth: depth, ..*c };
            m.insert(id, updated);
        },
        None => {},
    }
}

fn set_list(m: &mut BTreeMap<u32, ParagraphContract>, id: u32, kind: ListKind, depth: u8)
    ensures
        final(m)@ == with_list(old(m)@, id, kind, depth),
{
    match m.get(&id) {
        Some(c) => {
            let updated = ParagraphContract { list: Some(ListInfo { kind, depth }), ..*c };
            m.insert(id, updated);
        },
        None => {},
    }
}

fn apply_legacy_quotes(m: &mut BTreeMap<u32, ParagraphContract>, defs: &Vec<ParaDefinition>)
    ensures
        final(m)@ == legacy_quotes(old(m)@, defs@),
{
    let ghost m0 = m@;
    let mut k: usize = 0;
    while k < defs.len()
        invariant
            k <= defs.len(),
            m@ == legacy_quotes(m0, defs@.take(k as int)),
        decreases defs.len() - k,
    {
        assert(defs@.take(k + 1).drop_last() =~= defs@.take(k as int));
        let d = defs[k];
        let legacy = d.border_fill_id_ref == Some(3u32) && d.heading == HeadingType::NoHeading && match d.left_margin {
            Some(l) => l >= 2000,
            None => false,
        };
        if legacy {
            match m.get(&d.id) {
                Some(c) => {
                    let updated = ParagraphContract { quote_depth: 1, legacy_quote: true, ..*c };
                    m.insert(d.id, updated);
                },
                None => {},
            }
        }
        k += 1;
    }
    assert(defs@.take(defs.len() as int) =~= defs@);
}

fn apply_quote_contracts(m: &mut BTreeMap<u32, ParagraphContract>, defs: &Vec<ParaDefinition>) -> (r: Result<(), CoreRsError>)
    ensures
        match spec_quote_contracts(old(m)@, defs@) {
            Ok(x) => r is Ok && final(m)@ == x,
            Err(e) => r matches Err(y) && y@ == e,
        },
{
    let q = definitions_of(defs, DefFilter::ModernQuote);
    if q.len() > 2 {
        return Err(CoreRsError::from_str_detail(ErrorKind::UnsupportedFeature, "HWPX parser supports quote depth up to 2"));
    }
    let q = ordered_by_margin(q);
    if q.len() > 0 {
        set_quote(m, q[0].id, 1);
    }
    if q.len() > 1 {
        set_quote(m, q[1].id, 2);
    }
    apply_legacy_quotes(m, defs);
    Ok(())
}

fn apply_list_levels(m: &mut BTreeMap<u32, ParagraphContract>, q: &Vec<ParaDefinition>, kind: ListKind)
    requires
        q.len() <= 2,
    ensures
        final(m)@ == assign_lists(old(m)@, q@, kind),
{
    if q.len() > 0 {
        set_list(m, q[0].id, kind, 1);
    }
    if q.len() > 1 {
        set_list(m, q[1].id, kind, 2);
    }
}

fn apply_unordered_list_contracts(m: &mut BTreeMap<u32, ParagraphContract>, defs: &Vec<ParaDefinition>, bullets: &BTreeSet<u32>) -> (r: Result<(), CoreRsError>)
    ensures
        match spec_unordered_contracts(old(m)@, defs@, bullets@) {
            Ok(x) => r is Ok && final(m)@ == x,
            Err(e) => r matches Err(y) && y@ == e,
        },
{
    let q = definitions_of(defs, DefFilter::Bullet);
    if q.len() == 0 {
        return Ok(());
    }
    if !bullets.contains(&1) {
        return Err(CoreRsError::from_str_detail(ErrorKind::InvalidHwpx, "bullet paragraph contract is missing hh:bullet id=\"1\""));
    }
    if q.len() > 2 {
        return Err(CoreRsError::from_str_detail(ErrorKind::UnsupportedFeature, "HWPX parser supports unordered list depth up to 2"));
    }
    let q = ordered_by_margin(q);
    apply_list_levels(m, &q, ListKind::Unordered);
    Ok(())
}

fn apply_ordered_list_contracts(m: &mut BTreeMap<u32, ParagraphContract>, defs: &Vec<ParaDefinition>, numberings: &BTreeSet<u32>) -> (r: Result<(), CoreRsError>)
    ensures
        match spec_ordered_contracts(old(m)@, defs@, numberings@) {
            Ok(x) => r is Ok && final(m)@ == x,
            Err(e) => r matches Err(y) && y@ == e,
        },
{
    let q = definitions_of(defs, DefFilter::Number);
    if q.len() == 0 {
        return Ok(());
    }
    let mut k: usize = 0;
    assert(q@.skip(0) =~= q@);
    while k < q.len()
        invariant
            k <= q.len(),
            q@ == defs_where(defs@, DefFilter::Number),
            q.len() > 0,
            first_missing_numbering(q@, numberings@) == first_missing_numbering(q@.skip(k as int), numberings@),
        decreases q.len() - k,
    {
        assert(q@.skip(k as int)[0] == q@[k as int]);
        if !numberings.contains(&q[k].heading_id_ref) {
            let mut message = owned("ordered list paragraph contract references missing numbering ");
            append_decimal(&mut message, q[k].heading_id_ref as u64);
            return Err(CoreRsError::new(ErrorKind::InvalidHwpx, message));
        }
        assert(q@.skip(k as int).drop_first() =~= q@.skip(k + 1));
        k += 1;
    }
    assert(q@.skip(k as int) =~= Seq::<ParaDefinition>::empty());
    if q.len() > 2 {
        return Err(CoreRsError::from_str_detail(ErrorKind::UnsupportedFeature, "HWPX parser supports ordered list depth up to 2"));
    }
    let q = ordered_by_margin(q);
    apply_list_levels(m, &q, ListKind::Ordered);
    Ok(())
}

fn initial_paragraph_contracts(defs: &Vec<ParaDefinition>) -> (m: BTreeMap<u32, ParagraphContract>)
    ensures
        m@ == initial_contracts(defs@),
{
    let mut m: BTreeMap<u32, ParagraphContract> = BTreeMap::new();
    let mut k: usize = 0;
    while k < defs.len()
        invariant
            k <= defs.len(),
            m@ == initial_contracts(defs@.take(k as int)),
        decreases defs.len() - k,
    {
        assert(defs@.take(k + 1).drop_last() =~= defs@.take(k as int));
        m.insert(defs[k].id, ParagraphContract { quote_depth: 0, legacy_quote: false, list: None });
        k += 1;
    }
    assert(defs@.take(defs.len() as int) =~= defs@);
    m
}

/// The registry of a header part.
pub fn parse_registry(header_xml: &str) -> (r: Result<Registry, CoreRsError>)
    ensures
        match spec_parse_registry(header_xml@) {
            Ok(x) => r matches Ok(y) && y@ == x,
            Err(e) => r matches Err(y) && y@ == e,
        },
{
    let nodes = match read_xml(header_xml) {
        Ok(n) => n,
        Err(message) => {
            let mut m = owned("invalid Contents/header.xml XML: ");
            m.append(message.as_str());
            return Err(CoreRsError::new(ErrorKind::InvalidHwpx, m));
        },
    };
    let ds = descendants(&nodes, 0);
    let defs = para_definitions(&nodes, &ds)?;
    let headings = style_heading_levels(&nodes, &ds, &defs)?;
    let chars = char_styles(&nodes, &ds)?;
    let bullets = collect_element_ids(&nodes, &ds, "bullet")?;
    let numberings = collect_element_ids(&nodes, &ds, "numbering")?;
    let mut paragraphs = initial_paragraph_contracts(&defs);
    apply_quote_contracts(&mut paragraphs, &defs)?;
    apply_unordered_list_contracts(&mut paragraphs, &defs, &bullets)?;
    apply_ordered_list_contracts(&mut paragraphs, &defs, &numberings)?;
    Ok(Registry { paragraphs, headings, chars })
}

/// The paragraph reference that a section makes of an unknown property.
pub open spec fn unknown_paragraph(id: u32) -> ErrorV {
    invalid_hwpx("section paragraph references unknown paraPrIDRef "@ + decimal(id as nat))
}

impl Registry {
    /// The contract of a paragraph property; an unknown one is refused.
    pub fn paragraph(&self, para_pr_id: u32) -> (r: Result<ParagraphContract, CoreRsError>)
        ensures
            self@.paragraphs.contains_key(para_pr_id) ==> r == Ok::<ParagraphContract, CoreRsError>(self@.paragraphs[para_pr_id]),
            !self@.paragraphs.contains_key(para_pr_id) ==> (r matches Err(e) && e@ == unknown_paragraph(para_pr_id)),
    {
        match self.paragraphs.get(&para_pr_id) {
            Some(c) => Ok(*c),
            None => {
                let mut m = owned("section paragraph references unknown paraPrIDRef ");
                append_decimal(&mut m, para_pr_id as u64);
                Err(CoreRsError::new(ErrorKind::InvalidHwpx, m))
            },
        }
    }

    /// The heading level of a paragraph style, if it is a heading.
    pub fn heading_level(&self, style_id: u32) -> (r: Option<u8>)
        ensures
            r == (if self@.headings.contains_key(style_id) { Some(self@.headings[style_id]) } else { None::<u8> }),
    {
        match self.headings.get(&style_id) {
            Some(l) => Some(*l),
            None => None,
        }
    }

    /// The style of a character property; an unknown one is plain.
    pub fn char_style(&self, char_pr_id: u32) -> (r: CharStyle)
        ensures
            r == (if self@.chars.contains_key(char_pr_id) { self@.chars[char_pr_id] } else { CharStyle::Plain }),
    {
        match self.chars.get(&char_pr_id) {
            Some(c) => *c,
            None => CharStyle::Plain,
        }
    }
}

} // verus!
