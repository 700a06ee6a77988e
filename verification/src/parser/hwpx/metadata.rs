//! The metadata of an HWPX package: title, language, creator and last editor, as
//! its content part records them.
use vstd::prelude::*;
use crate::error::{CoreRsError, ErrorKind, ErrorV, err};
use crate::utils::text::{owned, str_eq};
use crate::utils::xml_reader::{
    XmlNode, XmlNodeV, attribute, children, find_child, find_descendant, first_named, nodes_ok, normalized_node_text,
    spec_normalized_text,
    opt_string_view, read_xml, spec_attribute, spec_children, spec_descendants, spec_xml_nodes,
    xml_nodes_view,
};

verus! {

/// The metadata that an HWPX package records.
#[derive(Debug, Clone, PartialEq, Eq)]
pub struct RawHwpxMetadata {
    pub title: Option<String>,
    pub language: Option<String>,
    pub creator: Option<String>,
    pub lastsaveby: Option<String>,
}

pub struct MetadataV {
    pub title: Option<Seq<char>>,
    pub language: Option<Seq<char>>,
    pub creator: Option<Seq<char>>,
    pub lastsaveby: Option<Seq<char>>,
}

impl View for RawHwpxMetadata {
    type V = MetadataV;

    open spec fn view(&self) -> MetadataV {
        MetadataV {
            title: opt_string_view(self.title),
            language: opt_string_view(self.language),
            creator: opt_string_view(self.creator),
            lastsaveby: opt_string_view(self.lastsaveby),
        }
    }
}

pub open spec fn invalid_hwpx(detail: Seq<char>) -> ErrorV {
    err(ErrorKind::InvalidHwpx, detail)
}

/// The trimmed text of a node, or none when it is blank.
pub open spec fn nonblank_text(v: Seq<XmlNodeV>, j: nat) -> Option<Seq<char>> {
    let t = spec_normalized_text(v, j);
    if t.len() == 0 { None } else { Some(t) }
}

/// The text of the first child element of a local name, unless blank.
pub open spec fn spec_direct_child_text(v: Seq<XmlNodeV>, i: nat, name: Seq<char>) -> Option<Seq<char>> {
    match first_named(v, spec_children(v, i), name) {
        None => None,
        Some(c) => nonblank_text(v, c),
    }
}

/// The first of some nodes that is a `meta` element with a given `name` attribute.
pub open spec fn first_meta(v: Seq<XmlNodeV>, s: Seq<nat>, meta_name: Seq<char>) -> Option<nat>
    decreases s.len(),
{
    if s.len() == 0 {
        None
    } else if v[s[0] as int].is_element && v[s[0] as int].name == "meta"@
        && spec_attribute(v, s[0], "name"@) == Some(meta_name) {
        Some(s[0])
    } else {
        first_meta(v, s.drop_first(), meta_name)
    }
}

/// The text of the first `meta` child with a given `name` attribute, unless blank.
pub open spec fn spec_meta_text(v: Seq<XmlNodeV>, i: nat, meta_name: Seq<char>) -> Option<Seq<char>> {
    match first_meta(v, spec_children(v, i), meta_name) {
        None => None,
        Some(c) => nonblank_text(v, c),
    }
}

/// The metadata of a content part: the first `metadata` element's `title` and
/// `language` children and its `creator` and `lastsaveby` meta entries.
pub open spec fn spec_parse_metadata(content_hpf: Seq<char>) -> Result<MetadataV, ErrorV> {
    match spec_xml_nodes(content_hpf) {
        Err(m) => Err(invalid_hwpx("invalid Contents/content.hpf XML: "@ + m)),
        Ok(v) => match first_named(v, spec_descendants(v, 0), "metadata"@) {
            None => Err(invalid_hwpx("missing opf:metadata in Contents/content.hpf"@)),
            Some(m) => Ok(MetadataV {
                title: spec_direct_child_text(v, m, "title"@),
                language: spec_direct_child_text(v, m, "language"@),
                creator: spec_meta_text(v, m, "creator"@),
                lastsaveby: spec_meta_text(v, m, "lastsaveby"@),
            }),
        },
    }
}

fn nonblank(nodes: &Vec<XmlNode>, j: usize) -> (r: Option<String>)
    requires
        j < nodes.len(),
    ensures
        opt_string_view(r) == nonblank_text(xml_nodes_view(nodes@), j as nat),
{
    let t = normalized_node_text(nodes, j);
    if t.as_str().is_empty() { None } else { Some(t) }
}

fn direct_child_text(nodes: &Vec<XmlNode>, i: usize, name: &str) -> (r: Option<String>)
    ensures
        opt_string_view(r) == spec_direct_child_text(xml_nodes_view(nodes@), i as nat, name@),
{
    match find_child(nodes, i, name) {
        None => None,
        Some(c) => nonblank(nodes, c),
    }
}

fn meta_text(nodes: &Vec<XmlNode>, i: usize, meta_name: &str) -> (r: Option<String>)
    ensures
        opt_string_view(r) == spec_meta_text(xml_nodes_view(nodes@), i as nat, meta_name@),
{
    let ghost v = xml_nodes_view(nodes@);
    let cs = children(nodes, i);
    let ghost sv = cs@.map_values(|x: usize| x as nat);
    let mut k: usize = 0;
    assert(sv.skip(0) =~= sv);
    while k < cs.len()
        invariant
            k <= cs.len(),
            v == xml_nodes_view(nodes@),
            sv == cs@.map_values(|x: usize| x as nat),
            sv == spec_children(v, i as nat),
            forall|x: int| 0 <= x < cs.len() ==> cs[x] < nodes.len(),
            first_meta(v, sv, meta_name@) == first_meta(v, sv.skip(k as int), meta_name@),
        decreases cs.len() - k,
    {
        let j = cs[k];
        assert(sv.skip(k as int)[0] == j as nat);
        assert(v[j as int] == nodes@[j as int]@);
        if nodes[j].is_element && str_eq(nodes[j].name.as_str(), "meta") {
            let a = attribute(nodes, j, "name");
            let hit = match &a {
                Some(x) => str_eq(x.as_str(), meta_name),
                None => false,
            };
            if hit {
                return nonblank(nodes, j);
            }
        }
        assert(sv.skip(k as int).drop_first() =~= sv.skip(k + 1));
        k += 1;
    }
    assert(sv.skip(k as int) =~= Seq::<nat>::empty());
    None
}

/// The metadata of a package's content part.
pub fn parse_metadata(content_hpf: &str) -> (r: Result<RawHwpxMetadata, CoreRsError>)
    ensures
        match spec_parse_metadata(content_hpf@) {
            Ok(m) => r matches Ok(x) && x@ == m,
            Err(e) => r matches Err(x) && x@ == e,
        },
{
    let nodes = match read_xml(content_hpf) {
        Ok(n) => n,
        Err(message) => {
            let mut m = owned("invalid Contents/content.hpf XML: ");
            m.append(message.as_str());
            return Err(CoreRsError::new(ErrorKind::InvalidHwpx, m));
        },
    };
    let metadata = match find_descendant(&nodes, 0, "metadata") {
        Some(m) => m,
        None => return Err(CoreRsError::from_str_detail(ErrorKind::InvalidHwpx, "missing opf:metadata in Contents/content.hpf")),
    };
    Ok(RawHwpxMetadata {
        title: direct_child_text(&nodes, metadata, "title"),
        language: direct_child_text(&nodes, metadata, "language"),
        creator: meta_text(&nodes, metadata, "creator"),
        lastsaveby: meta_text(&nodes, metadata, "lastsaveby"),
    })
}

} // verus!
