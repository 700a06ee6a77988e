//! Reading XML: the nodes of a document in document order, each with its parent,
//! and the queries that the HWPX parser makes of them (children, descendants,
//! attributes, text), with numbers read as `str::parse` reads unsigned integers.
use vstd::prelude::*;
use crate::error::{CoreRsError, ErrorKind, ErrorV, err};
use crate::utils::text::{chars_of, owned, spec_trim, str_eq, trim};

verus! {

/// A node of a document: whether it is an element or a text, its local name (empty
/// for nodes without one), its attributes as namespace, local name and value, its
/// text (an element's first child's text when that child is a text), and the
/// index of its parent.
#[derive(Debug)]
pub struct XmlNode {
    pub is_element: bool,
    pub is_text: bool,
    pub name: String,
    pub attributes: Vec<(Option<String>, String, String)>,
    pub text: Option<String>,
    pub parent: Option<usize>,
}

pub type AttributeV = (Option<Seq<char>>, Seq<char>, Seq<char>);

pub struct XmlNodeV {
    pub is_element: bool,
    pub is_text: bool,
    pub name: Seq<char>,
    pub attributes: Seq<AttributeV>,
    pub text: Option<Seq<char>>,
    pub parent: Option<nat>,
}

pub open spec fn opt_string_view(o: Option<String>) -> Option<Seq<char>> {
    match o {
        Some(s) => Some(s@),
        None => None,
    }
}

pub open spec fn attribute_view(a: (Option<String>, String, String)) -> AttributeV {
    (opt_string_view(a.0), a.1@, a.2@)
}

impl View for XmlNode {
    type V = XmlNodeV;

    open spec fn view(&self) -> XmlNodeV {
        XmlNodeV {
            is_element: self.is_element,
            is_text: self.is_text,
            name: self.name@,
            attributes: self.attributes@.map_values(|a: (Option<String>, String, String)| attribute_view(a)),
            text: opt_string_view(self.text),
            parent: match self.parent {
                Some(p) => Some(p as nat),
                None => None,
            },
        }
    }
}

pub open spec fn xml_nodes_view(s: Seq<XmlNode>) -> Seq<XmlNodeV> {
    s.map_values(|n: XmlNode| n@)
}

/// The nodes of the document that a text holds, in document order starting with
/// the document node, or the reader's message when the text is not well-formed
/// XML.
pub uninterp spec fn spec_xml_nodes(text: Seq<char>) -> Result<Seq<XmlNodeV>, Seq<char>>;

/// The nodes form a tree listed in document order: the first is the document node,
/// and every other node's parent comes before it.
pub open spec fn tree_shaped(v: Seq<XmlNodeV>) -> bool {
    &&& v.len() > 0
    &&& v[0].parent is None
    &&& forall|j: int| 0 < j < v.len() ==> (#[trigger] v[j].parent matches Some(p) && p < j)
}

/// The nodes of an XML document.
///
/// Trusted: `roxmltree::Document::parse`, then, for each node of
/// `Document::descendants` (document order, so that a node's position is its
/// `NodeId`), `is_element`, `is_text`, `tag_name().name()`, `attributes()`,
/// `text()` and `parent()`. The result is named as a function of the text; the
/// source parses each node after its parent, which gives the tree shape, and
/// refuses a document without a root element.
#[verifier::external_body]
pub fn read_xml(text: &str) -> (r: Result<Vec<XmlNode>, String>)
    ensures
        match r {
            Ok(nodes) => spec_xml_nodes(text@) == Ok::<Seq<XmlNodeV>, Seq<char>>(xml_nodes_view(nodes@))
                && tree_shaped(xml_nodes_view(nodes@)) && spec_element_children(xml_nodes_view(nodes@), 0).len() > 0,
            Err(m) => spec_xml_nodes(text@) == Err::<Seq<XmlNodeV>, Seq<char>>(m@),
        },
{
    let document = roxmltree::Document::parse(text).map_err(|error| error.to_string())?;
    let mut nodes = Vec::new();
    for node in document.descendants() {
        let mut attributes = Vec::new();
        for a in node.attributes() {
            attributes.push((a.namespace().map(String::from), a.name().to_string(), a.value().to_string()));
        }
        let parent = node.parent().map(|p| p.id().get_usize());
        let text = node.text().map(String::from);
        let name = node.tag_name().name().to_string();
        nodes.push(XmlNode { is_element: node.is_element(), is_text: node.is_text(), name, attributes, text, parent });
    }
    Ok(nodes)
}

/// Whether node `a` is a proper ancestor of node `j`.
pub open spec fn is_ancestor(v: Seq<XmlNodeV>, a: nat, j: nat) -> bool
    decreases j,
{
    if j < v.len() {
        match v[j as int].parent {
            Some(p) => p == a || (p < j && is_ancestor(v, a, p)),
            None => false,
        }
    } else {
        false
    }
}

/// Whether node `j` is node `i` or one of its descendants.
pub open spec fn in_subtree(v: Seq<XmlNodeV>, i: nat, j: nat) -> bool {
    j == i || is_ancestor(v, i, j)
}

/// The indices among the first `k` nodes that pass a test, in order.
pub open spec fn indices_where(k: nat, keep: spec_fn(nat) -> bool) -> Seq<nat>
    decreases k,
{
    if k == 0 {
        seq![]
    } else {
        let prev = indices_where((k - 1) as nat, keep);
        if keep((k - 1) as nat) { prev.push((k - 1) as nat) } else { prev }
    }
}

/// The children of a node, in order.
pub open spec fn spec_children(v: Seq<XmlNodeV>, i: nat) -> Seq<nat> {
    indices_where(v.len(), |j: nat| v[j as int].parent == Some(i))
}

/// The element children of a node, in order.
pub open spec fn spec_element_children(v: Seq<XmlNodeV>, i: nat) -> Seq<nat> {
    indices_where(v.len(), |j: nat| v[j as int].parent == Some(i) && v[j as int].is_element)
}

/// A node and its descendants, in document order.
pub open spec fn spec_descendants(v: Seq<XmlNodeV>, i: nat) -> Seq<nat> {
    indices_where(v.len(), |j: nat| in_subtree(v, i, j))
}

/// Whether a node is an element of a local name.
pub open spec fn named(v: Seq<XmlNodeV>, j: nat, name: Seq<char>) -> bool {
    v[j as int].is_element && v[j as int].name == name
}

/// The first of some nodes that is an element of a local name.
pub open spec fn first_named(v: Seq<XmlNodeV>, s: Seq<nat>, name: Seq<char>) -> Option<nat>
    decreases s.len(),
{
    if s.len() == 0 {
        None
    } else if named(v, s[0], name) {
        Some(s[0])
    } else {
        first_named(v, s.drop_first(), name)
    }
}

/// The value of the first attribute without a namespace that has a local name.
pub open spec fn spec_attribute_in(attrs: Seq<AttributeV>, name: Seq<char>) -> Option<Seq<char>>
    decreases attrs.len(),
{
    if attrs.len() == 0 {
        None
    } else if attrs[0].0 is None && attrs[0].1 == name {
        Some(attrs[0].2)
    } else {
        spec_attribute_in(attrs.drop_first(), name)
    }
}

pub open spec fn spec_attribute(v: Seq<XmlNodeV>, i: nat, name: Seq<char>) -> Option<Seq<char>> {
    spec_attribute_in(v[i as int].attributes, name)
}

pub open spec fn opt_index(o: Option<usize>) -> Option<nat> {
    match o {
        Some(x) => Some(x as nat),
        None => None,
    }
}

pub open spec fn nodes_ok(nodes: &Vec<XmlNode>) -> bool {
    tree_shaped(xml_nodes_view(nodes@))
}

/// The indices of the nodes that pass a test, given as the executable test's
/// results.
fn collect_indices(nodes: &Vec<XmlNode>, keep: Ghost<spec_fn(nat) -> bool>, flags: &Vec<bool>) -> (r: Vec<usize>)
    requires
        flags.len() == nodes.len(),
        forall|j: int| 0 <= j < flags.len() ==> flags[j] == (keep@)(j as nat),
    ensures
        r@.map_values(|x: usize| x as nat) == indices_where(nodes.len() as nat, keep@),
        forall|x: int| 0 <= x < r.len() ==> r[x] < nodes.len(),
{
    let mut r: Vec<usize> = Vec::new();
    let mut j: usize = 0;
    while j < nodes.len()
        invariant
            j <= nodes.len(),
            flags.len() == nodes.len(),
            forall|k: int| 0 <= k < flags.len() ==> flags[k] == (keep@)(k as nat),
            r@.map_values(|x: usize| x as nat) == indices_where(j as nat, keep@),
            forall|x: int| 0 <= x < r.len() ==> r[x] < j,
        decreases nodes.len() - j,
    {
        let ghost before = r@;
        if flags[j] {
            r.push(j);
            assert(r@.map_values(|x: usize| x as nat) =~= before.map_values(|x: usize| x as nat).push(j as nat));
        }
        j += 1;
    }
    r
}

/// The element children of a node, in order.
pub fn element_children(nodes: &Vec<XmlNode>, i: usize) -> (r: Vec<usize>)
    ensures
        r@.map_values(|x: usize| x as nat) == spec_element_children(xml_nodes_view(nodes@), i as nat),
        forall|x: int| 0 <= x < r.len() ==> r[x] < nodes.len(),
{
    let ghost v = xml_nodes_view(nodes@);
    let ghost keep = |j: nat| v[j as int].parent == Some(i as nat) && v[j as int].is_element;
    let mut flags: Vec<bool> = Vec::new();
    let mut j: usize = 0;
    while j < nodes.len()
        invariant
            j <= nodes.len(),
            v == xml_nodes_view(nodes@),
            flags.len() == j,
            forall|k: int| 0 <= k < j ==> flags[k] == (v[k].parent == Some(i as nat) && v[k].is_element),
        decreases nodes.len() - j,
    {
        assert(v[j as int] == nodes@[j as int]@);
        let b = match nodes[j].parent {
            Some(p) => p == i && nodes[j].is_element,
            None => false,
        };
        flags.push(b);
        j += 1;
    }
    collect_indices(nodes, Ghost(keep), &flags)
}

/// The children of a node, in order.
pub fn children(nodes: &Vec<XmlNode>, i: usize) -> (r: Vec<usize>)
    ensures
        r@.map_values(|x: usize| x as nat) == spec_children(xml_nodes_view(nodes@), i as nat),
        forall|x: int| 0 <= x < r.len() ==> r[x] < nodes.len(),
{
    let ghost v = xml_nodes_view(nodes@);
    let ghost keep = |j: nat| v[j as int].parent == Some(i as nat);
    let mut flags: Vec<bool> = Vec::new();
    let mut j: usize = 0;
    while j < nodes.len()
        invariant
            j <= nodes.len(),
            v == xml_nodes_view(nodes@),
            flags.len() == j,
            forall|k: int| 0 <= k < j ==> flags[k] == (v[k].parent == Some(i as nat)),
        decreases nodes.len() - j,
    {
        assert(v[j as int] == nodes@[j as int]@);
        let b = match nodes[j].parent {
            Some(p) => p == i,
            None => false,
        };
        flags.push(b);
        j += 1;
    }
    collect_indices(nodes, Ghost(keep), &flags)
}

fn ancestor_check(nodes: &Vec<XmlNode>, a: usize, j: usize) -> (b: bool)
    requires
        nodes_ok(nodes),
        j < nodes.len(),
    ensures
        b == is_ancestor(xml_nodes_view(nodes@), a as nat, j as nat),
{
    let ghost v = xml_nodes_view(nodes@);
    let mut k: usize = j;
    while k > 0
        invariant
            k <= j < nodes.len(),
            v == xml_nodes_view(nodes@),
            tree_shaped(v),
            is_ancestor(v, a as nat, j as nat) == is_ancestor(v, a as nat, k as nat),
        decreases k,
    {
        assert(v[k as int].parent matches Some(p) && p < k);
        let p = match nodes[k].parent {
            Some(p) => p,
            None => return false,
        };
        if p == a {
            return true;
        }
        k = p;
    }
    assert(v[0].parent is None);
    false
}

/// A node and its descendants, in document order.
pub fn descendants(nodes: &Vec<XmlNode>, i: usize) -> (r: Vec<usize>)
    requires
        nodes_ok(nodes),
    ensures
        r@.map_values(|x: usize| x as nat) == spec_descendants(xml_nodes_view(nodes@), i as nat),
        forall|x: int| 0 <= x < r.len() ==> r[x] < nodes.len(),
{
    let ghost v = xml_nodes_view(nodes@);
    let ghost keep = |j: nat| in_subtree(v, i as nat, j);
    let mut flags: Vec<bool> = Vec::new();
    let mut j: usize = 0;
    while j < nodes.len()
        invariant
            j <= nodes.len(),
            v == xml_nodes_view(nodes@),
            tree_shaped(v),
            flags.len() == j,
            forall|k: int| 0 <= k < j ==> flags[k] == in_subtree(v, i as nat, k as nat),
        decreases nodes.len() - j,
    {
        let b = j == i || ancestor_check(nodes, i, j);
        flags.push(b);
        j += 1;
    }
    collect_indices(nodes, Ghost(keep), &flags)
}

/// The first of some nodes that is an element of a local name.
pub fn find_named(nodes: &Vec<XmlNode>, s: &Vec<usize>, name: &str) -> (r: Option<usize>)
    requires
        forall|x: int| 0 <= x < s.len() ==> s[x] < nodes.len(),
    ensures
        opt_index(r) == first_named(xml_nodes_view(nodes@), s@.map_values(|x: usize| x as nat), name@),
        r matches Some(x) ==> x < nodes.len(),
{
    let ghost v = xml_nodes_view(nodes@);
    let ghost sv = s@.map_values(|x: usize| x as nat);
    let mut k: usize = 0;
    assert(sv.skip(0) =~= sv);
    while k < s.len()
        invariant
            k <= s.len(),
            v == xml_nodes_view(nodes@),
            sv == s@.map_values(|x: usize| x as nat),
            forall|x: int| 0 <= x < s.len() ==> s[x] < nodes.len(),
            first_named(v, sv, name@) == first_named(v, sv.skip(k as int), name@),
        decreases s.len() - k,
    {
        let j = s[k];
        assert(sv.skip(k as int)[0] == j as nat);
        if nodes[j].is_element && str_eq(nodes[j].name.as_str(), name) {
            return Some(j);
        }
        assert(sv.skip(k as int).drop_first() =~= sv.skip(k + 1));
        k += 1;
    }
    assert(sv.skip(k as int) =~= Seq::<nat>::empty());
    None
}

/// The first element child of a node with a local name.
pub fn find_child(nodes: &Vec<XmlNode>, i: usize, name: &str) -> (r: Option<usize>)
    ensures
        opt_index(r) == first_named(xml_nodes_view(nodes@), spec_children(xml_nodes_view(nodes@), i as nat), name@),
        r matches Some(x) ==> x < nodes.len(),
{
    let cs = children(nodes, i);
    find_named(nodes, &cs, name)
}

/// The first element of a local name among a node and its descendants.
pub fn find_descendant(nodes: &Vec<XmlNode>, i: usize, name: &str) -> (r: Option<usize>)
    requires
        nodes_ok(nodes),
    ensures
        opt_index(r) == first_named(xml_nodes_view(nodes@), spec_descendants(xml_nodes_view(nodes@), i as nat), name@),
        r matches Some(x) ==> x < nodes.len(),
{
    let ds = descendants(nodes, i);
    find_named(nodes, &ds, name)
}

/// The value of a node's attribute without a namespace.
pub fn attribute(nodes: &Vec<XmlNode>, i: usize, name: &str) -> (r: Option<String>)
    requires
        i < nodes.len(),
    ensures
        opt_string_view(r) == spec_attribute(xml_nodes_view(nodes@), i as nat, name@),
{
    let attrs = &nodes[i].attributes;
    let ghost av = attrs@.map_values(|a: (Option<String>, String, String)| attribute_view(a));
    assert(av == xml_nodes_view(nodes@)[i as int].attributes);
    let mut k: usize = 0;
    assert(av.skip(0) =~= av);
    while k < attrs.len()
        invariant
            k <= attrs.len(),
            av == attrs@.map_values(|a: (Option<String>, String, String)| attribute_view(a)),
            av == xml_nodes_view(nodes@)[i as int].attributes,
            spec_attribute_in(av, name@) == spec_attribute_in(av.skip(k as int), name@),
        decreases attrs.len() - k,
    {
        assert(av.skip(k as int)[0] == attribute_view(attrs@[k as int]));
        let a = &attrs[k];
        if a.0.is_none() && str_eq(a.1.as_str(), name) {
            let value = a.2.clone();
            assert(spec_attribute_in(av.skip(k as int), name@) == Some(value@));
            return Some(value);
        }
        assert(av.skip(k as int).drop_first() =~= av.skip(k + 1));
        k += 1;
    }
    assert(av.skip(k as int) =~= Seq::<AttributeV>::empty());
    None
}

pub open spec fn is_digit(c: char) -> bool {
    '0' <= c && c <= '9'
}

/// The value of decimal digits read from the left, or the error that an unsigned
/// integer parser reports: a character that is no digit, or a value past `max`,
/// whichever comes first.
pub open spec fn spec_digits_value(d: Seq<char>, acc: nat, max: nat) -> Result<nat, Seq<char>>
    decreases d.len(),
{
    if d.len() == 0 {
        Ok(acc)
    } else if !is_digit(d[0]) {
        Err("invalid digit found in string"@)
    } else {
        let n = acc * 10 + (d[0] as nat - 48);
        if n > max {
            Err("number too large to fit in target type"@)
        } else {
            spec_digits_value(d.skip(1), n as nat, max)
        }
    }
}

/// An unsigned integer of at most `max`, read as `str::parse` reads one: decimal
/// digits after an optional `+`.
pub open spec fn spec_parse_unsigned(s: Seq<char>, max: nat) -> Result<nat, Seq<char>> {
    if s.len() == 0 {
        Err("cannot parse integer from empty string"@)
    } else if s[0] == '+' && s.len() == 1 {
        Err("invalid digit found in string"@)
    } else if s[0] == '+' {
        spec_digits_value(s.skip(1), 0, max)
    } else {
        spec_digits_value(s, 0, max)
    }
}

/// An unsigned integer of at most `max` read from text.
pub fn parse_unsigned(s: &str, max: u64) -> (r: Result<u64, String>)
    ensures
        match spec_parse_unsigned(s@, max as nat) {
            Ok(n) => r matches Ok(x) && x == n,
            Err(m) => r matches Err(x) && x@ == m,
        },
        r matches Ok(x) ==> x <= max,
{
    let cs = chars_of(s);
    if cs.len() == 0 {
        return Err(owned("cannot parse integer from empty string"));
    }
    if cs[0] == '+' && cs.len() == 1 {
        return Err(owned("invalid digit found in string"));
    }
    let start: usize = if cs[0] == '+' { 1 } else { 0 };
    let mut acc: u64 = 0;
    let mut i: usize = start;
    assert(cs@.skip(0) =~= s@);
    while i < cs.len()
        invariant
            start <= i <= cs@.len(),
            cs@ == s@,
            acc <= max,
            spec_parse_unsigned(s@, max as nat) == spec_digits_value(cs@.skip(i as int), acc as nat, max as nat),
        decreases cs@.len() - i,
    {
        let c = cs[i];
        assert(cs@.skip(i as int)[0] == c);
        if !('0' <= c && c <= '9') {
            return Err(owned("invalid digit found in string"));
        }
        let n: u128 = acc as u128 * 10 + ((c as u32) - 48) as u128;
        if n > max as u128 {
            return Err(owned("number too large to fit in target type"));
        }
        assert(cs@.skip(i as int).skip(1) =~= cs@.skip(i + 1));
        acc = n as u64;
        i += 1;
    }
    assert(cs@.skip(i as int) =~= Seq::<char>::empty());
    Ok(acc)
}

/// The error of a missing attribute.
pub open spec fn missing_attribute(attr: Seq<char>, label: Seq<char>) -> ErrorV {
    err(ErrorKind::InvalidHwpx, "missing "@ + attr + " attribute on "@ + label)
}

/// The error of an attribute that is no `u32`.
pub open spec fn invalid_attribute(attr: Seq<char>, label: Seq<char>, reason: Seq<char>) -> ErrorV {
    err(ErrorKind::InvalidHwpx, "invalid "@ + attr + " attribute on "@ + label + ": "@ + reason)
}

/// A required `u32` attribute: missing or unreadable ones are refused.
pub open spec fn spec_required_u32(v: Seq<XmlNodeV>, i: nat, attr: Seq<char>, label: Seq<char>) -> Result<u32, ErrorV> {
    match spec_attribute(v, i, attr) {
        None => Err(missing_attribute(attr, label)),
        Some(value) => match spec_parse_unsigned(value, u32::MAX as nat) {
            Ok(n) => Ok(n as u32),
            Err(m) => Err(invalid_attribute(attr, label, m)),
        },
    }
}

/// A required `u32` attribute of a node.
pub fn required_u32_attr(nodes: &Vec<XmlNode>, i: usize, attr: &str, label: &str) -> (r: Result<u32, CoreRsError>)
    requires
        i < nodes.len(),
    ensures
        match spec_required_u32(xml_nodes_view(nodes@), i as nat, attr@, label@) {
            Ok(n) => r matches Ok(x) && x == n,
            Err(e) => r matches Err(x) && x@ == e,
        },
{
    let value = match attribute(nodes, i, attr) {
        Some(v) => v,
        None => {
            let mut m = owned("missing ");
            m.append(attr);
            m.append(" attribute on ");
            m.append(label);
            return Err(CoreRsError::new(ErrorKind::InvalidHwpx, m));
        },
    };
    match parse_unsigned(value.as_str(), 4294967295) {
        Ok(n) => Ok(n as u32),
        Err(reason) => {
            let mut m = owned("invalid ");
            m.append(attr);
            m.append(" attribute on ");
            m.append(label);
            m.append(": ");
            m.append(reason.as_str());
            Err(CoreRsError::new(ErrorKind::InvalidHwpx, m))
        },
    }
}

/// The text of a node, trimmed: an element's first text child, or nothing.
pub open spec fn spec_normalized_text(v: Seq<XmlNodeV>, i: nat) -> Seq<char> {
    spec_trim(match v[i as int].text {
        Some(t) => t,
        None => seq![],
    })
}

/// The trimmed text of a node.
pub fn normalized_node_text(nodes: &Vec<XmlNode>, i: usize) -> (t: String)
    requires
        i < nodes.len(),
    ensures
        t@ == spec_normalized_text(xml_nodes_view(nodes@), i as nat),
{
    assert(xml_nodes_view(nodes@)[i as int] == nodes@[i as int]@);
    match &nodes[i].text {
        Some(t) => trim(t.as_str()),
        None => {
            let t = trim("");
            proof {
                assert(""@ =~= Seq::<char>::empty()) by {
                    reveal_strlit("");
                }
            }
            t
        },
    }
}

} // verus!
