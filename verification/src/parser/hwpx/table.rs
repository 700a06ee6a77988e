//! Tables of an HWPX section: rows of cells, each cell one paragraph of text; the
//! first row is the header row.
use vstd::prelude::*;
use crate::error::{CoreRsError, ErrorKind, ErrorV, err};
use crate::models::block::{TableAlignment, TableBlock, TableBlockV, TableRow, cells_view, rows_view};
use crate::models::inline::{Inline, InlineV, inlines_view};
use crate::parser::hwpx::inline::{flatten_text_node, push_inline, spec_flatten_text_node, spec_push_inline};
use crate::parser::hwpx::metadata::invalid_hwpx;
use crate::parser::hwpx::registry::{index_view, is_named, unsupported_error};
use crate::utils::text::{owned, str_eq};
use crate::utils::xml_reader::{XmlNode, XmlNodeV, element_children, spec_element_children, xml_nodes_view};

verus! {

broadcast use crate::models::block::group_view_lemmas;

pub open spec fn node_name(v: Seq<XmlNodeV>, j: nat) -> Seq<char> {
    v[j as int].name
}

/// One element child of a cell's sub-list: the single paragraph.
pub open spec fn spec_sublist_step(v: Seq<XmlNodeV>, j: nat, st: Option<nat>) -> Result<Option<nat>, ErrorV> {
    if node_name(v, j) == "p"@ {
        if st is Some {
            Err(unsupported_error("HWPX parser does not support multiple paragraphs inside a table cell"@))
        } else {
            Ok(Some(j))
        }
    } else {
        Err(unsupported_error("HWPX parser does not support hp:subList child "@ + node_name(v, j) + " inside table cells"@))
    }
}

/// One element child of a cell: the single sub-list; the cell's address, span, size
/// and margin are skipped.
pub open spec fn spec_cell_step(v: Seq<XmlNodeV>, j: nat, st: Option<nat>) -> Result<Option<nat>, ErrorV> {
    let n = node_name(v, j);
    if n == "subList"@ {
        if st is Some {
            Err(unsupported_error("HWPX parser does not support multiple hp:subList elements in a table cell"@))
        } else {
            Ok(Some(j))
        }
    } else if n == "cellAddr"@ || n == "cellSpan"@ || n == "cellSz"@ || n == "cellMargin"@ {
        Ok(st)
    } else {
        Err(unsupported_error("HWPX parser does not support hp:tc child "@ + n))
    }
}

/// Picks the single element child of a kind among the first `k` children.
pub open spec fn spec_pick_upto(v: Seq<XmlNodeV>, cs: Seq<nat>, k: nat, in_cell: bool) -> Result<Option<nat>, ErrorV>
    decreases k,
{
    if k == 0 {
        Ok(None)
    } else {
        match spec_pick_upto(v, cs, (k - 1) as nat, in_cell) {
            Err(e) => Err(e),
            Ok(st) => if in_cell { spec_cell_step(v, cs[k - 1], st) } else { spec_sublist_step(v, cs[k - 1], st) },
        }
    }
}

/// The sub-list of a cell.
pub open spec fn spec_cell_sublist(v: Seq<XmlNodeV>, tc: nat) -> Result<nat, ErrorV> {
    let cs = spec_element_children(v, tc);
    match spec_pick_upto(v, cs, cs.len(), true) {
        Err(e) => Err(e),
        Ok(None) => Err(invalid_hwpx("table cell is missing hp:subList"@)),
        Ok(Some(s)) => Ok(s),
    }
}

/// The paragraph of a cell's sub-list.
pub open spec fn spec_cell_paragraph(v: Seq<XmlNodeV>, sub: nat) -> Result<nat, ErrorV> {
    let cs = spec_element_children(v, sub);
    match spec_pick_upto(v, cs, cs.len(), false) {
        Err(e) => Err(e),
        Ok(None) => Err(invalid_hwpx("table cell is missing hp:p"@)),
        Ok(Some(p)) => Ok(p),
    }
}

/// One element child of a run in a cell: a text element's plain text is appended.
pub open spec fn spec_cell_run_step(v: Seq<XmlNodeV>, j: nat, acc: Seq<InlineV>) -> Result<Seq<InlineV>, ErrorV> {
    if node_name(v, j) == "t"@ {
        match spec_flatten_text_node(v, j) {
            Err(e) => Err(e),
            Ok(t) => Ok(spec_push_inline(acc, InlineV::Text(t))),
        }
    } else {
        Err(unsupported_error("HWPX parser does not support hp:run child "@ + node_name(v, j) + " inside table cells"@))
    }
}

pub open spec fn spec_cell_run_upto(v: Seq<XmlNodeV>, cs: Seq<nat>, k: nat, acc: Seq<InlineV>) -> Result<Seq<InlineV>, ErrorV>
    decreases k,
{
    if k == 0 {
        Ok(acc)
    } else {
        match spec_cell_run_upto(v, cs, (k - 1) as nat, acc) {
            Err(e) => Err(e),
            Ok(a) => spec_cell_run_step(v, cs[k - 1], a),
        }
    }
}

/// The text of the runs among the first `k` element children of a cell paragraph.
pub open spec fn spec_cell_runs_upto(v: Seq<XmlNodeV>, ps: Seq<nat>, k: nat) -> Result<Seq<InlineV>, ErrorV>
    decreases k,
{
    if k == 0 {
        Ok(seq![])
    } else {
        match spec_cell_runs_upto(v, ps, (k - 1) as nat) {
            Err(e) => Err(e),
            Ok(acc) => if is_named(v, ps[k - 1], "run"@) {
                let cs = spec_element_children(v, ps[k - 1]);
                spec_cell_run_upto(v, cs, cs.len(), acc)
            } else {
                Ok(acc)
            },
        }
    }
}

/// The text of a cell: the plain text of its paragraph's runs.
pub open spec fn spec_parse_cell(v: Seq<XmlNodeV>, tc: nat) -> Result<Seq<InlineV>, ErrorV> {
    match spec_cell_sublist(v, tc) {
        Err(e) => Err(e),
        Ok(sub) => match spec_cell_paragraph(v, sub) {
            Err(e) => Err(e),
            Ok(p) => {
                let ps = spec_element_children(v, p);
                spec_cell_runs_upto(v, ps, ps.len())
            },
        },
    }
}

/// The cells among the first `k` element children of a row.
pub open spec fn spec_cells_upto(v: Seq<XmlNodeV>, cs: Seq<nat>, k: nat) -> Result<Seq<Seq<InlineV>>, ErrorV>
    decreases k,
{
    if k == 0 {
        Ok(seq![])
    } else {
        match spec_cells_upto(v, cs, (k - 1) as nat) {
            Err(e) => Err(e),
            Ok(acc) => if is_named(v, cs[k - 1], "tc"@) {
                match spec_parse_cell(v, cs[k - 1]) {
                    Err(e) => Err(e),
                    Ok(c) => Ok(acc.push(c)),
                }
            } else {
                Ok(acc)
            },
        }
    }
}

/// The cells of a row; a row without cells is refused.
pub open spec fn spec_parse_row(v: Seq<XmlNodeV>, tr: nat) -> Result<Seq<Seq<InlineV>>, ErrorV> {
    let cs = spec_element_children(v, tr);
    match spec_cells_upto(v, cs, cs.len()) {
        Err(e) => Err(e),
        Ok(cells) => if cells.len() == 0 { Err(invalid_hwpx("table row must contain at least one cell"@)) } else { Ok(cells) },
    }
}

/// The rows among the first `k` element children of a table.
pub open spec fn spec_rows_upto(v: Seq<XmlNodeV>, cs: Seq<nat>, k: nat) -> Result<Seq<Seq<Seq<InlineV>>>, ErrorV>
    decreases k,
{
    if k == 0 {
        Ok(seq![])
    } else {
        match spec_rows_upto(v, cs, (k - 1) as nat) {
            Err(e) => Err(e),
            Ok(acc) => if is_named(v, cs[k - 1], "tr"@) {
                match spec_parse_row(v, cs[k - 1]) {
                    Err(e) => Err(e),
                    Ok(r) => Ok(acc.push(r)),
                }
            } else {
                Ok(acc)
            },
        }
    }
}

/// A table: its first row is the header, the others the body, no column aligned;
/// a table without rows is refused.
pub open spec fn spec_parse_table(v: Seq<XmlNodeV>, tbl: nat) -> Result<TableBlockV, ErrorV> {
    let cs = spec_element_children(v, tbl);
    match spec_rows_upto(v, cs, cs.len()) {
        Err(e) => Err(e),
        Ok(rows) => if rows.len() == 0 {
            Err(invalid_hwpx("table must contain at least one row"@))
        } else {
            Ok(TableBlockV {
                aligns: Seq::new(rows[0].len(), |k: int| TableAlignment::Unaligned),
                headers: rows[0],
                rows: rows.drop_first(),
            })
        },
    }
}

proof fn lemma_pick_err(v: Seq<XmlNodeV>, cs: Seq<nat>, k: nat, n: nat, in_cell: bool)
    requires
        k <= n,
        spec_pick_upto(v, cs, k, in_cell) is Err,
    ensures
        spec_pick_upto(v, cs, n, in_cell) == spec_pick_upto(v, cs, k, in_cell),
    decreases n - k,
{
    if k < n {
        lemma_pick_err(v, cs, k, (n - 1) as nat, in_cell);
    }
}

fn name_is(nodes: &Vec<XmlNode>, j: usize, name: &str) -> (b: bool)
    requires
        j < nodes.len(),
    ensures
        b == (node_name(xml_nodes_view(nodes@), j as nat) == name@),
{
    assert(xml_nodes_view(nodes@)[j as int] == nodes@[j as int]@);
    str_eq(nodes[j].name.as_str(), name)
}

fn pick_single(nodes: &Vec<XmlNode>, parent: usize, in_cell: bool) -> (r: Result<Option<usize>, CoreRsError>)
    ensures
        match spec_pick_upto(xml_nodes_view(nodes@), spec_element_children(xml_nodes_view(nodes@), parent as nat),
            spec_element_children(xml_nodes_view(nodes@), parent as nat).len(), in_cell) {
            Ok(x) => r matches Ok(y) && crate::utils::xml_reader::opt_index(y) == x && (y matches Some(z) ==> z < nodes.len()),
            Err(e) => r matches Err(y) && y@ == e,
        },
{
    let ghost v = xml_nodes_view(nodes@);
    let cs = element_children(nodes, parent);
    let ghost cv = index_view(cs@);
    let mut picked: Option<usize> = None;
    let mut k: usize = 0;
    while k < cs.len()
        invariant
            k <= cs.len(),
            v == xml_nodes_view(nodes@),
            cv == index_view(cs@),
            cv == spec_element_children(v, parent as nat),
            forall|x: int| 0 <= x < cs.len() ==> cs[x] < nodes.len(),
            picked matches Some(z) ==> z < nodes.len(),
            spec_pick_upto(v, cv, k as nat, in_cell) == Ok::<Option<nat>, ErrorV>(crate::utils::xml_reader::opt_index(picked)),
        decreases cs.len() - k,
    {
        let j = cs[k];
        assert(cv[k as int] == j as nat);
        let failed: Option<CoreRsError> = if in_cell {
            if name_is(nodes, j, "subList") {
                if picked.is_some() {
                    Some(CoreRsError::from_str_detail(
                        ErrorKind::UnsupportedFeature,
                        "HWPX parser does not support multiple hp:subList elements in a table cell",
                    ))
                } else {
                    picked = Some(j);
                    None
                }
            } else if name_is(nodes, j, "cellAddr") || name_is(nodes, j, "cellSpan") || name_is(nodes, j, "cellSz")
                || name_is(nodes, j, "cellMargin") {
                None
            } else {
                let mut m = owned("HWPX parser does not support hp:tc child ");
                m.append(nodes[j].name.as_str());
                Some(CoreRsError::new(ErrorKind::UnsupportedFeature, m))
            }
        } else {
            if name_is(nodes, j, "p") {
                if picked.is_some() {
                    Some(CoreRsError::from_str_detail(
                        ErrorKind::UnsupportedFeature,
                        "HWPX parser does not support multiple paragraphs inside a table cell",
                    ))
                } else {
                    picked = Some(j);
                    None
                }
            } else {
                let mut m = owned("HWPX parser does not support hp:subList child ");
                m.append(nodes[j].name.as_str());
                m.append(" inside table cells");
                Some(CoreRsError::new(ErrorKind::UnsupportedFeature, m))
            }
        };
        assert(v[j as int] == nodes@[j as int]@);
        match failed {
            Some(e) => {
                assert(spec_pick_upto(v, cv, (k + 1) as nat, in_cell) == Err::<Option<nat>, ErrorV>(e@));
                proof { lemma_pick_err(v, cv, (k + 1) as nat, cv.len(), in_cell); }
                return Err(e);
            },
            None => {},
        }
        k += 1;
    }
    Ok(picked)
}

proof fn lemma_cell_run_err(v: Seq<XmlNodeV>, cs: Seq<nat>, k: nat, n: nat, acc: Seq<InlineV>)
    requires
        k <= n,
        spec_cell_run_upto(v, cs, k, acc) is Err,
    ensures
        spec_cell_run_upto(v, cs, n, acc) == spec_cell_run_upto(v, cs, k, acc),
    decreases n - k,
{
    if k < n {
        lemma_cell_run_err(v, cs, k, (n - 1) as nat, acc);
    }
}

fn cell_run(nodes: &Vec<XmlNode>, run: usize, inlines: &mut Vec<Inline>) -> (r: Result<(), CoreRsError>)
    ensures
        match spec_cell_run_upto(xml_nodes_view(nodes@), spec_element_children(xml_nodes_view(nodes@), run as nat),
            spec_element_children(xml_nodes_view(nodes@), run as nat).len(), inlines_view(old(inlines)@)) {
            Ok(x) => r is Ok && inlines_view(final(inlines)@) == x,
            Err(e) => r matches Err(y) && y@ == e,
        },
{
    let ghost v = xml_nodes_view(nodes@);
    let ghost init = inlines_view(inlines@);
    let cs = element_children(nodes, run);
    let ghost cv = index_view(cs@);
    let mut k: usize = 0;
    while k < cs.len()
        invariant
            k <= cs.len(),
            v == xml_nodes_view(nodes@),
            cv == index_view(cs@),
            cv == spec_element_children(v, run as nat),
            init == inlines_view(old(inlines)@),
            forall|x: int| 0 <= x < cs.len() ==> cs[x] < nodes.len(),
            spec_cell_run_upto(v, cv, k as nat, init) == Ok::<Seq<InlineV>, ErrorV>(inlines_view(inlines@)),
        decreases cs.len() - k,
    {
        let j = cs[k];
        assert(cv[k as int] == j as nat);
        if name_is(nodes, j, "t") {
            match flatten_text_node(nodes, j) {
                Ok(t) => push_inline(inlines, Inline::Text(t)),
                Err(e) => {
                    proof { lemma_cell_run_err(v, cv, (k + 1) as nat, cv.len(), init); }
                    return Err(e);
                },
            }
        } else {
            let mut m = owned("HWPX parser does not support hp:run child ");
            m.append(nodes[j].name.as_str());
            m.append(" inside table cells");
            assert(v[j as int] == nodes@[j as int]@);
            let e = CoreRsError::new(ErrorKind::UnsupportedFeature, m);
            assert(spec_cell_run_upto(v, cv, (k + 1) as nat, init) == Err::<Seq<InlineV>, ErrorV>(e@));
            proof { lemma_cell_run_err(v, cv, (k + 1) as nat, cv.len(), init); }
            return Err(e);
        }
        k += 1;
    }
    Ok(())
}

proof fn lemma_cell_runs_err(v: Seq<XmlNodeV>, ps: Seq<nat>, k: nat, n: nat)
    requires
        k <= n,
        spec_cell_runs_upto(v, ps, k) is Err,
    ensures
        spec_cell_runs_upto(v, ps, n) == spec_cell_runs_upto(v, ps, k),
    decreases n - k,
{
    if k < n {
        lemma_cell_runs_err(v, ps, k, (n - 1) as nat);
    }
}

fn is_element_named(nodes: &Vec<XmlNode>, j: usize, name: &str) -> (b: bool)
    requires
        j < nodes.len(),
    ensures
        b == is_named(xml_nodes_view(nodes@), j as nat, name@),
{
    assert(xml_nodes_view(nodes@)[j as int] == nodes@[j as int]@);
    nodes[j].is_element && str_eq(nodes[j].name.as_str(), name)
}

/// The text of a table cell.
pub fn parse_table_cell(nodes: &Vec<XmlNode>, tc: usize) -> (r: Result<Vec<Inline>, CoreRsError>)
    ensures
        match spec_parse_cell(xml_nodes_view(nodes@), tc as nat) {
            Ok(x) => r matches Ok(y) && inlines_view(y@) == x,
            Err(e) => r matches Err(y) && y@ == e,
        },
{
    let ghost v = xml_nodes_view(nodes@);
    let sub = match pick_single(nodes, tc, true)? {
        Some(s) => s,
        None => return Err(CoreRsError::from_str_detail(ErrorKind::InvalidHwpx, "table cell is missing hp:subList")),
    };
    let p = match pick_single(nodes, sub, false)? {
        Some(p) => p,
        None => return Err(CoreRsError::from_str_detail(ErrorKind::InvalidHwpx, "table cell is missing hp:p")),
    };
    let ps = element_children(nodes, p);
    let ghost pv = index_view(ps@);
    let mut inlines: Vec<Inline> = Vec::new();
    let mut k: usize = 0;
    assert(inlines_view(inlines@) =~= Seq::<InlineV>::empty());
    while k < ps.len()
        invariant
            k <= ps.len(),
            v == xml_nodes_view(nodes@),
            pv == index_view(ps@),
            pv == spec_element_children(v, p as nat),
            spec_cell_sublist(v, tc as nat) == Ok::<nat, ErrorV>(sub as nat),
            spec_cell_paragraph(v, sub as nat) == Ok::<nat, ErrorV>(p as nat),
            forall|x: int| 0 <= x < ps.len() ==> ps[x] < nodes.len(),
            spec_cell_runs_upto(v, pv, k as nat) == Ok::<Seq<InlineV>, ErrorV>(inlines_view(inlines@)),
        decreases ps.len() - k,
    {
        let j = ps[k];
        assert(pv[k as int] == j as nat);
        if is_element_named(nodes, j, "run") {
            let ghost acc = inlines_view(inlines@);
            match cell_run(nodes, j, &mut inlines) {
                Ok(()) => {},
                Err(e) => {
                    assert(spec_cell_runs_upto(v, pv, (k + 1) as nat) == Err::<Seq<InlineV>, ErrorV>(e@));
                    proof { lemma_cell_runs_err(v, pv, (k + 1) as nat, pv.len()); }
                    return Err(e);
                },
            }
        }
        k += 1;
    }
    Ok(inlines)
}

proof fn lemma_cells_err(v: Seq<XmlNodeV>, cs: Seq<nat>, k: nat, n: nat)
    requires
        k <= n,
        spec_cells_upto(v, cs, k) is Err,
    ensures
        spec_cells_upto(v, cs, n) == spec_cells_upto(v, cs, k),
    decreases n - k,
{
    if k < n {
        lemma_cells_err(v, cs, k, (n - 1) as nat);
    }
}

/// The cells of a table row.
pub fn parse_table_row(nodes: &Vec<XmlNode>, tr: usize) -> (r: Result<TableRow, CoreRsError>)
    ensures
        match spec_parse_row(xml_nodes_view(nodes@), tr as nat) {
            Ok(x) => r matches Ok(y) && cells_view(y.cells@) == x,
            Err(e) => r matches Err(y) && y@ == e,
        },
{
    let ghost v = xml_nodes_view(nodes@);
    let cs = element_children(nodes, tr);
    let ghost cv = index_view(cs@);
    let mut cells: Vec<Vec<Inline>> = Vec::new();
    let mut k: usize = 0;
    assert(cells_view(cells@) =~= Seq::<Seq<InlineV>>::empty());
    while k < cs.len()
        invariant
            k <= cs.len(),
            v == xml_nodes_view(nodes@),
            cv == index_view(cs@),
            cv == spec_element_children(v, tr as nat),
            forall|x: int| 0 <= x < cs.len() ==> cs[x] < nodes.len(),
            spec_cells_upto(v, cv, k as nat) == Ok::<Seq<Seq<InlineV>>, ErrorV>(cells_view(cells@)),
        decreases cs.len() - k,
    {
        let j = cs[k];
        assert(cv[k as int] == j as nat);
        if is_element_named(nodes, j, "tc") {
            match parse_table_cell(nodes, j) {
                Ok(c) => {
                    let ghost before = cells_view(cells@);
                    cells.push(c);
                    assert(cells_view(cells@) =~= before.push(inlines_view(c@)));
                },
                Err(e) => {
                    proof { lemma_cells_err(v, cv, (k + 1) as nat, cv.len()); }
                    return Err(e);
                },
            }
        }
        k += 1;
    }
    if cells.len() == 0 {
        return Err(CoreRsError::from_str_detail(ErrorKind::InvalidHwpx, "table row must contain at least one cell"));
    }
    Ok(TableRow { cells })
}

proof fn lemma_rows_err(v: Seq<XmlNodeV>, cs: Seq<nat>, k: nat, n: nat)
    requires
        k <= n,
        spec_rows_upto(v, cs, k) is Err,
    ensures
        spec_rows_upto(v, cs, n) == spec_rows_upto(v, cs, k),
    decreases n - k,
{
    if k < n {
        lemma_rows_err(v, cs, k, (n - 1) as nat);
    }
}

/// A table element.
pub fn parse_table(nodes: &Vec<XmlNode>, tbl: usize) -> (r: Result<TableBlock, CoreRsError>)
    ensures
        match spec_parse_table(xml_nodes_view(nodes@), tbl as nat) {
            Ok(x) => r matches Ok(y) && crate::models::block::table_view(y) == x,
            Err(e) => r matches Err(y) && y@ == e,
        },
{
    let ghost v = xml_nodes_view(nodes@);
    let cs = element_children(nodes, tbl);
    let ghost cv = index_view(cs@);
    let mut rows: Vec<TableRow> = Vec::new();
    let mut k: usize = 0;
    assert(rows_view(rows@) =~= Seq::<Seq<Seq<InlineV>>>::empty());
    while k < cs.len()
        invariant
            k <= cs.len(),
            v == xml_nodes_view(nodes@),
            cv == index_view(cs@),
            cv == spec_element_children(v, tbl as nat),
            forall|x: int| 0 <= x < cs.len() ==> cs[x] < nodes.len(),
            spec_rows_upto(v, cv, k as nat) == Ok::<Seq<Seq<Seq<InlineV>>>, ErrorV>(rows_view(rows@)),
        decreases cs.len() - k,
    {
        let j = cs[k];
        assert(cv[k as int] == j as nat);
        if is_element_named(nodes, j, "tr") {
            match parse_table_row(nodes, j) {
                Ok(row) => {
                    let ghost before = rows_view(rows@);
                    rows.push(row);
                    assert(rows_view(rows@) =~= before.push(cells_view(row.cells@)));
                },
                Err(e) => {
                    proof { lemma_rows_err(v, cv, (k + 1) as nat, cv.len()); }
                    return Err(e);
                },
            }
        }
        k += 1;
    }
    if rows.len() == 0 {
        return Err(CoreRsError::from_str_detail(ErrorKind::InvalidHwpx, "table must contain at least one row"));
    }
    let ghost all = rows_view(rows@);
    let mut body = rows;
    let first = body.remove(0);
    let headers = first.cells;
    let mut aligns: Vec<TableAlignment> = Vec::new();
    let mut a: usize = 0;
    while a < headers.len()
        invariant
            a <= headers.len(),
            aligns@ == Seq::new(a as nat, |k: int| TableAlignment::Unaligned),
        decreases headers.len() - a,
    {
        aligns.push(TableAlignment::Unaligned);
        assert(aligns@ =~= Seq::new((a + 1) as nat, |k: int| TableAlignment::Unaligned));
        a += 1;
    }
    assert(cells_view(headers@) == all[0]);
    assert(rows_view(body@) =~= all.drop_first());
    Ok(TableBlock { aligns, headers, rows: body })
}

} // verus!
