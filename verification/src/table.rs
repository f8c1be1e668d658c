//! The table builder: column-header definitions, per-row field bindings and
//! the data rows combine into one table, with a computed footer row appended
//! after the data rows.

use vstd::prelude::*;
use crate::binder::bind_field;
use crate::binder::field_of_expr;
use crate::binder::spec_bind_cell;
use crate::data::Json;
use crate::data::JsonV;
use crate::document::Element;
use crate::document::ElementV;
use crate::document::TableHeader;
use crate::document::TableHeaderV;
use crate::document::TableRow;
use crate::error::ReportError;
use crate::error::ReportErrorV;
use crate::node::Node;
use crate::node::NodeV;
use crate::node::Scalar;
use crate::node::ScalarV;
use crate::node::spec_find_attr;
use crate::params::ParamMap;
use crate::subst::subst;
use crate::subst::substitute;

verus! {

/// The header cell one `column_header` node yields: its required `name`
/// (a string) is the caption, its required `width` (a number) is kept in
/// textual form. A missing attribute is a hard error; a wrongly typed one is
/// a type mismatch.
pub open spec fn spec_column_header(c: NodeV) -> Result<TableHeaderV, ReportErrorV> {
    match spec_find_attr(c.attrs, "name"@) {
        None => Err(ReportErrorV::MissingAttribute("name"@)),
        Some(namev) => match namev {
            ScalarV::Str(text) => match spec_find_attr(c.attrs, "width"@) {
                None => Err(ReportErrorV::MissingAttribute("width"@)),
                Some(widthv) => match widthv {
                    ScalarV::Num { text: wt, int_val } => Ok(TableHeaderV { text, width: wt }),
                    _ => Err(ReportErrorV::TypeMismatch("width"@, "number"@)),
                },
            },
            _ => Err(ReportErrorV::TypeMismatch("name"@, "string"@)),
        },
    }
}

/// The header cells of all columns, or the first error.
pub open spec fn spec_headers(cols: Seq<NodeV>) -> Result<Seq<TableHeaderV>, ReportErrorV>
    decreases cols.len(),
{
    if cols.len() == 0 {
        Ok(Seq::empty())
    } else {
        match spec_column_header(cols[0]) {
            Err(e) => Err(e),
            Ok(h) => match spec_headers(cols.drop_first()) {
                Err(e) => Err(e),
                Ok(rest) => Ok(seq![h] + rest),
            },
        }
    }
}

/// Splitting a column sequence splits its header computation.
proof fn lemma_spec_headers_add(a: Seq<NodeV>, b: Seq<NodeV>)
    ensures
        spec_headers(a + b) == match spec_headers(a) {
            Err(e) => Err::<Seq<TableHeaderV>, ReportErrorV>(e),
            Ok(ha) => match spec_headers(b) {
                Err(e) => Err(e),
                Ok(hb) => Ok(ha + hb),
            },
        },
    decreases a.len(),
{
    if a.len() == 0 {
        assert(a + b =~= b);
        if spec_headers(b) is Ok {
            assert(Seq::<TableHeaderV>::empty() + spec_headers(b)->Ok_0 =~= spec_headers(
                b,
            )->Ok_0);
        }
    } else {
        assert((a + b)[0] == a[0]);
        assert((a + b).drop_first() =~= a.drop_first() + b);
        lemma_spec_headers_add(a.drop_first(), b);
        if spec_column_header(a[0]) is Ok && spec_headers(a.drop_first()) is Ok && spec_headers(
            b,
        ) is Ok {
            assert(seq![spec_column_header(a[0])->Ok_0] + (spec_headers(a.drop_first())->Ok_0
                + spec_headers(b)->Ok_0) =~= (seq![spec_column_header(a[0])->Ok_0]
                + spec_headers(a.drop_first())->Ok_0) + spec_headers(b)->Ok_0);
        }
    }
}

/// Reads one column node into a header cell.
fn column_header(c: &Node) -> (r: Result<TableHeader, ReportError>)
    ensures
        match r {
            Ok(h) => spec_column_header(c@) == Ok::<TableHeaderV, ReportErrorV>(h@),
            Err(e) => spec_column_header(c@) == Err::<TableHeaderV, ReportErrorV>(e@),
        },
{
    let namev = match c.get_attr("name") {
        Some(v) => v,
        None => {
            return Err(ReportError::MissingAttribute(String::from_str("name")));
        },
    };
    let text = match namev {
        Scalar::Str(s) => s.clone(),
        _ => {
            return Err(ReportError::TypeMismatch(
                String::from_str("name"),
                String::from_str("string"),
            ));
        },
    };
    let widthv = match c.get_attr("width") {
        Some(v) => v,
        None => {
            return Err(ReportError::MissingAttribute(String::from_str("width")));
        },
    };
    let width = match widthv {
        Scalar::Num { text: wt, int_val } => wt.clone(),
        _ => {
            return Err(ReportError::TypeMismatch(
                String::from_str("width"),
                String::from_str("number"),
            ));
        },
    };
    Ok(TableHeader { text, width })
}

/// Reads all column nodes into the table's header cells, or fails with the
/// first offending column's error.
pub fn build_headers(columns: &Vec<Node>) -> (r: Result<Vec<TableHeader>, ReportError>)
    ensures
        match r {
            Ok(hs) => spec_headers(columns.deep_view()) == Ok::<
                Seq<TableHeaderV>,
                ReportErrorV,
            >(hs.deep_view()),
            Err(e) => spec_headers(columns.deep_view()) == Err::<
                Seq<TableHeaderV>,
                ReportErrorV,
            >(e@),
        },
{
    let ghost colsv = columns.deep_view();
    let n = columns.len();
    let mut out: Vec<TableHeader> = Vec::new();
    let mut i: usize = 0;
    proof {
        assert(colsv.take(0) =~= Seq::<NodeV>::empty());
        assert(out.deep_view() =~= Seq::<TableHeaderV>::empty());
    }
    while i < n
        invariant
            i <= n,
            n == columns@.len(),
            colsv == columns.deep_view(),
            colsv.len() == n,
            forall|k: int| 0 <= k < n ==> colsv[k] == #[trigger] columns@[k]@,
            spec_headers(colsv.take(i as int)) == Ok::<Seq<TableHeaderV>, ReportErrorV>(
                out.deep_view(),
            ),
        decreases n - i,
    {
        let ghost pre = out.deep_view();
        match column_header(&columns[i]) {
            Ok(h) => {
                proof {
                    assert(spec_column_header(colsv[i as int]) == Ok::<
                        TableHeaderV,
                        ReportErrorV,
                    >(h@));
                }
                out.push(h);
                proof {
                    assert(colsv.take(i + 1) =~= colsv.take(i as int) + seq![colsv[i as int]]);
                    lemma_spec_headers_add(colsv.take(i as int), seq![colsv[i as int]]);
                    assert(seq![colsv[i as int]].drop_first() =~= Seq::<NodeV>::empty());
                    assert(spec_headers(Seq::<NodeV>::empty()) == Ok::<
                        Seq<TableHeaderV>,
                        ReportErrorV,
                    >(Seq::empty()));
                    assert(seq![colsv[i as int]][0] == colsv[i as int]);
                    assert(spec_headers(seq![colsv[i as int]]) == Ok::<
                        Seq<TableHeaderV>,
                        ReportErrorV,
                    >(seq![h@] + Seq::empty()));
                    assert(seq![h@] + Seq::<TableHeaderV>::empty() =~= seq![h@]);
                    assert(out.deep_view() =~= pre + seq![h@]);
                }
            },
            Err(e) => {
                proof {
                    assert(colsv =~= colsv.take(i as int) + colsv.skip(i as int));
                    lemma_spec_headers_add(colsv.take(i as int), colsv.skip(i as int));
                    assert(colsv.skip(i as int)[0] == colsv[i as int]);
                }
                return Err(e);
            },
        }
        i = i + 1;
    }
    proof {
        assert(colsv.take(n as int) =~= colsv);
    }
    Ok(out)
}

/// The binding literal one `row` node declares: its first positional value,
/// which must be a string.
pub open spec fn spec_row_binding(n: NodeV) -> Result<Seq<char>, ReportErrorV> {
    if n.args.len() == 0 {
        Err(ReportErrorV::MissingAttribute("value"@))
    } else {
        match n.args[0] {
            ScalarV::Str(s) => Ok(s),
            _ => Err(ReportErrorV::TypeMismatch("value"@, "string"@)),
        }
    }
}

/// The cells one record yields: the row section's bindings are applied in
/// declared order, and bindings that yield no cell are skipped, so the row
/// may hold fewer cells than there are bindings.
pub open spec fn spec_row_cells(bindings: Seq<NodeV>, record: JsonV) -> Result<
    Seq<Seq<char>>,
    ReportErrorV,
>
    decreases bindings.len(),
{
    if bindings.len() == 0 {
        Ok(Seq::empty())
    } else {
        match spec_row_binding(bindings[0]) {
            Err(e) => Err(e),
            Ok(expr) => match spec_row_cells(bindings.drop_first(), record) {
                Err(e) => Err(e),
                Ok(rest) => match spec_bind_cell(record, field_of_expr(expr)) {
                    Some(c) => Ok(seq![c] + rest),
                    None => Ok(rest),
                },
            },
        }
    }
}

/// A row never holds more cells than the row section declares bindings:
/// every binding contributes at most one cell, and one that resolves to a
/// non-scalar value contributes none.
pub proof fn lemma_row_cells_bounded(bindings: Seq<NodeV>, record: JsonV)
    requires
        spec_row_cells(bindings, record) is Ok,
    ensures
        spec_row_cells(bindings, record)->Ok_0.len() <= bindings.len(),
    decreases bindings.len(),
{
    if bindings.len() > 0 {
        lemma_row_cells_bounded(bindings.drop_first(), record);
    }
}

/// Splitting the bindings splits the cell computation.
proof fn lemma_spec_row_cells_add(a: Seq<NodeV>, b: Seq<NodeV>, record: JsonV)
    ensures
        spec_row_cells(a + b, record) == match spec_row_cells(a, record) {
            Err(e) => Err::<Seq<Seq<char>>, ReportErrorV>(e),
            Ok(ca) => match spec_row_cells(b, record) {
                Err(e) => Err(e),
                Ok(cb) => Ok(ca + cb),
            },
        },
    decreases a.len(),
{
    if a.len() == 0 {
        assert(a + b =~= b);
        if spec_row_cells(b, record) is Ok {
            assert(Seq::<Seq<char>>::empty() + spec_row_cells(b, record)->Ok_0 =~= spec_row_cells(
                b,
                record,
            )->Ok_0);
        }
    } else {
        assert((a + b)[0] == a[0]);
        assert((a + b).drop_first() =~= a.drop_first() + b);
        lemma_spec_row_cells_add(a.drop_first(), b, record);
        if spec_row_binding(a[0]) is Ok && spec_row_cells(a.drop_first(), record) is Ok
            && spec_row_cells(b, record) is Ok {
            let head = spec_bind_cell(record, field_of_expr(spec_row_binding(a[0])->Ok_0));
            if head is Some {
                assert(seq![head->Some_0] + (spec_row_cells(a.drop_first(), record)->Ok_0
                    + spec_row_cells(b, record)->Ok_0) =~= (seq![head->Some_0] + spec_row_cells(
                    a.drop_first(),
                    record,
                )->Ok_0) + spec_row_cells(b, record)->Ok_0);
            }
        }
    }
}

/// Builds the cells of one data row.
fn build_row(row_nodes: &Vec<Node>, record: &Json) -> (r: Result<TableRow, ReportError>)
    ensures
        match r {
            Ok(row) => spec_row_cells(row_nodes.deep_view(), record@) == Ok::<
                Seq<Seq<char>>,
                ReportErrorV,
            >(row@),
            Err(e) => spec_row_cells(row_nodes.deep_view(), record@) == Err::<
                Seq<Seq<char>>,
                ReportErrorV,
            >(e@),
        },
{
    let ghost bindings = row_nodes.deep_view();
    let n = row_nodes.len();
    let mut cells: Vec<String> = Vec::new();
    let mut i: usize = 0;
    proof {
        assert(bindings.take(0) =~= Seq::<NodeV>::empty());
        assert(cells.deep_view() =~= Seq::<Seq<char>>::empty());
    }
    while i < n
        invariant
            i <= n,
            n == row_nodes@.len(),
            bindings == row_nodes.deep_view(),
            bindings.len() == n,
            forall|k: int| 0 <= k < n ==> bindings[k] == #[trigger] row_nodes@[k]@,
            spec_row_cells(bindings.take(i as int), record@) == Ok::<
                Seq<Seq<char>>,
                ReportErrorV,
            >(cells.deep_view()),
        decreases n - i,
    {
        let ghost pre = cells.deep_view();
        let node = &row_nodes[i];
        let expr = match node.first_arg() {
            Some(v) => match v {
                Scalar::Str(s) => s,
                _ => {
                    proof {
                        assert(bindings =~= bindings.take(i as int) + bindings.skip(i as int));
                        lemma_spec_row_cells_add(
                            bindings.take(i as int),
                            bindings.skip(i as int),
                            record@,
                        );
                        assert(bindings.skip(i as int)[0] == bindings[i as int]);
                    }
                    return Err(ReportError::TypeMismatch(
                        String::from_str("value"),
                        String::from_str("string"),
                    ));
                },
            },
            None => {
                proof {
                    assert(bindings =~= bindings.take(i as int) + bindings.skip(i as int));
                    lemma_spec_row_cells_add(
                        bindings.take(i as int),
                        bindings.skip(i as int),
                        record@,
                    );
                    assert(bindings.skip(i as int)[0] == bindings[i as int]);
                }
                return Err(ReportError::MissingAttribute(String::from_str("value")));
            },
        };
        let cell = bind_field(expr.as_str(), record);
        proof {
            assert(spec_row_binding(bindings[i as int]) == Ok::<Seq<char>, ReportErrorV>(expr@));
            assert(bindings.take(i + 1) =~= bindings.take(i as int) + seq![bindings[i as int]]);
            lemma_spec_row_cells_add(bindings.take(i as int), seq![bindings[i as int]], record@);
            assert(seq![bindings[i as int]].drop_first() =~= Seq::<NodeV>::empty());
            assert(spec_row_cells(Seq::<NodeV>::empty(), record@) == Ok::<
                Seq<Seq<char>>,
                ReportErrorV,
            >(Seq::empty()));
            assert(seq![bindings[i as int]][0] == bindings[i as int]);
        }
        match cell {
            Some(c) => {
                proof {
                    assert(spec_bind_cell(record@, field_of_expr(expr@)) == Some(c@));
                    assert(spec_row_cells(seq![bindings[i as int]], record@) == Ok::<
                        Seq<Seq<char>>,
                        ReportErrorV,
                    >(seq![c@] + Seq::empty()));
                }
                cells.push(c);
                proof {
                    assert(cells.deep_view() =~= pre + seq![c@]);
                    assert(seq![c@] + Seq::<Seq<char>>::empty() =~= seq![c@]);
                }
            },
            None => {
                proof {
                    assert(spec_bind_cell(record@, field_of_expr(expr@)) is None);
                    assert(spec_row_cells(seq![bindings[i as int]], record@) == Ok::<
                        Seq<Seq<char>>,
                        ReportErrorV,
                    >(Seq::empty()));
                    assert(pre + Seq::<Seq<char>>::empty() =~= pre);
                }
            },
        }
        i = i + 1;
    }
    proof {
        assert(bindings.take(n as int) =~= bindings);
    }
    Ok(TableRow { cells })
}

/// The footer cell one `column_footer` node yields: its first positional
/// value (a string literal) goes through placeholder substitution; a cell
/// that resolves to the empty string becomes a single space, so the grid
/// keeps a visible, non-collapsing cell.
pub open spec fn spec_footer_cell(n: NodeV, p: Map<Seq<char>, Seq<char>>) -> Result<
    Seq<char>,
    ReportErrorV,
> {
    if n.args.len() == 0 {
        Err(ReportErrorV::MissingAttribute("value"@))
    } else {
        match n.args[0] {
            ScalarV::Str(s) => {
                let t = subst(s, p);
                Ok(if t.len() == 0 { seq![' '] } else { t })
            },
            _ => Err(ReportErrorV::TypeMismatch("value"@, "string"@)),
        }
    }
}

/// The footer cells of all footer nodes, or the first error.
pub open spec fn spec_footer_cells(ns: Seq<NodeV>, p: Map<Seq<char>, Seq<char>>) -> Result<
    Seq<Seq<char>>,
    ReportErrorV,
>
    decreases ns.len(),
{
    if ns.len() == 0 {
        Ok(Seq::empty())
    } else {
        match spec_footer_cell(ns[0], p) {
            Err(e) => Err(e),
            Ok(c) => match spec_footer_cells(ns.drop_first(), p) {
                Err(e) => Err(e),
                Ok(rest) => Ok(seq![c] + rest),
            },
        }
    }
}

/// Splitting the footer nodes splits the cell computation.
proof fn lemma_spec_footer_cells_add(a: Seq<NodeV>, b: Seq<NodeV>, p: Map<Seq<char>, Seq<char>>)
    ensures
        spec_footer_cells(a + b, p) == match spec_footer_cells(a, p) {
            Err(e) => Err::<Seq<Seq<char>>, ReportErrorV>(e),
            Ok(ca) => match spec_footer_cells(b, p) {
                Err(e) => Err(e),
                Ok(cb) => Ok(ca + cb),
            },
        },
    decreases a.len(),
{
    if a.len() == 0 {
        assert(a + b =~= b);
        if spec_footer_cells(b, p) is Ok {
            assert(Seq::<Seq<char>>::empty() + spec_footer_cells(b, p)->Ok_0 =~= spec_footer_cells(
                b,
                p,
            )->Ok_0);
        }
    } else {
        assert((a + b)[0] == a[0]);
        assert((a + b).drop_first() =~= a.drop_first() + b);
        lemma_spec_footer_cells_add(a.drop_first(), b, p);
        if spec_footer_cell(a[0], p) is Ok && spec_footer_cells(a.drop_first(), p) is Ok
            && spec_footer_cells(b, p) is Ok {
            assert(seq![spec_footer_cell(a[0], p)->Ok_0] + (spec_footer_cells(
                a.drop_first(),
                p,
            )->Ok_0 + spec_footer_cells(b, p)->Ok_0) =~= (seq![spec_footer_cell(a[0], p)->Ok_0]
                + spec_footer_cells(a.drop_first(), p)->Ok_0) + spec_footer_cells(b, p)->Ok_0);
        }
    }
}

/// Builds the footer cells from the footer nodes.
pub fn build_footer_cells(footer_nodes: &Vec<Node>, params: &ParamMap) -> (r: Result<
    Vec<String>,
    ReportError,
>)
    ensures
        match r {
            Ok(cs) => spec_footer_cells(footer_nodes.deep_view(), params.as_map()) == Ok::<
                Seq<Seq<char>>,
                ReportErrorV,
            >(cs.deep_view()),
            Err(e) => spec_footer_cells(footer_nodes.deep_view(), params.as_map()) == Err::<
                Seq<Seq<char>>,
                ReportErrorV,
            >(e@),
        },
{
    let ghost fsv = footer_nodes.deep_view();
    let ghost p = params.as_map();
    let n = footer_nodes.len();
    let mut out: Vec<String> = Vec::new();
    let mut i: usize = 0;
    proof {
        assert(fsv.take(0) =~= Seq::<NodeV>::empty());
        assert(out.deep_view() =~= Seq::<Seq<char>>::empty());
    }
    while i < n
        invariant
            i <= n,
            n == footer_nodes@.len(),
            fsv == footer_nodes.deep_view(),
            p == params.as_map(),
            fsv.len() == n,
            forall|k: int| 0 <= k < n ==> fsv[k] == #[trigger] footer_nodes@[k]@,
            spec_footer_cells(fsv.take(i as int), p) == Ok::<Seq<Seq<char>>, ReportErrorV>(
                out.deep_view(),
            ),
        decreases n - i,
    {
        let ghost pre = out.deep_view();
        let node = &footer_nodes[i];
        let raw = match node.first_arg() {
            Some(v) => match v {
                Scalar::Str(s) => s,
                _ => {
                    proof {
                        assert(fsv =~= fsv.take(i as int) + fsv.skip(i as int));
                        lemma_spec_footer_cells_add(fsv.take(i as int), fsv.skip(i as int), p);
                        assert(fsv.skip(i as int)[0] == fsv[i as int]);
                    }
                    return Err(ReportError::TypeMismatch(
                        String::from_str("value"),
                        String::from_str("string"),
                    ));
                },
            },
            None => {
                proof {
                    assert(fsv =~= fsv.take(i as int) + fsv.skip(i as int));
                    lemma_spec_footer_cells_add(fsv.take(i as int), fsv.skip(i as int), p);
                    assert(fsv.skip(i as int)[0] == fsv[i as int]);
                }
                return Err(ReportError::MissingAttribute(String::from_str("value")));
            },
        };
        let resolved = substitute(raw.as_str(), params);
        let cell = if resolved.as_str().unicode_len() == 0 {
            proof {
                reveal_strlit(" ");
                assert(" "@ =~= seq![' ']);
            }
            String::from_str(" ")
        } else {
            resolved
        };
        out.push(cell);
        proof {
            assert(spec_footer_cell(fsv[i as int], p) == Ok::<Seq<char>, ReportErrorV>(cell@));
            assert(fsv.take(i + 1) =~= fsv.take(i as int) + seq![fsv[i as int]]);
            lemma_spec_footer_cells_add(fsv.take(i as int), seq![fsv[i as int]], p);
            assert(seq![fsv[i as int]].drop_first() =~= Seq::<NodeV>::empty());
            assert(spec_footer_cells(Seq::<NodeV>::empty(), p) == Ok::<
                Seq<Seq<char>>,
                ReportErrorV,
            >(Seq::empty()));
            assert(seq![fsv[i as int]][0] == fsv[i as int]);
            assert(spec_footer_cells(seq![fsv[i as int]], p) == Ok::<
                Seq<Seq<char>>,
                ReportErrorV,
            >(seq![cell@] + Seq::empty()));
            assert(seq![cell@] + Seq::<Seq<char>>::empty() =~= seq![cell@]);
            assert(out.deep_view() =~= pre + seq![cell@]);
        }
        i = i + 1;
    }
    proof {
        assert(fsv.take(n as int) =~= fsv);
    }
    Ok(out)
}

/// The cell rows all records yield, in array order, or the first error.
pub open spec fn spec_table_rows(bindings: Seq<NodeV>, records: Seq<JsonV>) -> Result<
    Seq<Seq<Seq<char>>>,
    ReportErrorV,
>
    decreases records.len(),
{
    if records.len() == 0 {
        Ok(Seq::empty())
    } else {
        match spec_row_cells(bindings, records[0]) {
            Err(e) => Err(e),
            Ok(c) => match spec_table_rows(bindings, records.drop_first()) {
                Err(e) => Err(e),
                Ok(rest) => Ok(seq![c] + rest),
            },
        }
    }
}

/// Splitting the records splits the row computation.
proof fn lemma_spec_table_rows_add(bindings: Seq<NodeV>, a: Seq<JsonV>, b: Seq<JsonV>)
    ensures
        spec_table_rows(bindings, a + b) == match spec_table_rows(bindings, a) {
            Err(e) => Err::<Seq<Seq<Seq<char>>>, ReportErrorV>(e),
            Ok(ra) => match spec_table_rows(bindings, b) {
                Err(e) => Err(e),
                Ok(rb) => Ok(ra + rb),
            },
        },
    decreases a.len(),
{
    if a.len() == 0 {
        assert(a + b =~= b);
        if spec_table_rows(bindings, b) is Ok {
            assert(Seq::<Seq<Seq<char>>>::empty() + spec_table_rows(bindings, b)->Ok_0
                =~= spec_table_rows(bindings, b)->Ok_0);
        }
    } else {
        assert((a + b)[0] == a[0]);
        assert((a + b).drop_first() =~= a.drop_first() + b);
        lemma_spec_table_rows_add(bindings, a.drop_first(), b);
        if spec_row_cells(bindings, a[0]) is Ok && spec_table_rows(bindings, a.drop_first()) is Ok
            && spec_table_rows(bindings, b) is Ok {
            assert(seq![spec_row_cells(bindings, a[0])->Ok_0] + (spec_table_rows(
                bindings,
                a.drop_first(),
            )->Ok_0 + spec_table_rows(bindings, b)->Ok_0) =~= (seq![
                spec_row_cells(bindings, a[0])->Ok_0,
            ] + spec_table_rows(bindings, a.drop_first())->Ok_0) + spec_table_rows(
                bindings,
                b,
            )->Ok_0);
        }
    }
}

/// Builds one table row per record, in array order.
pub fn build_rows(row_nodes: &Vec<Node>, records: &Vec<Json>) -> (r: Result<
    Vec<TableRow>,
    ReportError,
>)
    ensures
        match r {
            Ok(rows) => spec_table_rows(row_nodes.deep_view(), records.deep_view()) == Ok::<
                Seq<Seq<Seq<char>>>,
                ReportErrorV,
            >(rows.deep_view()),
            Err(e) => spec_table_rows(row_nodes.deep_view(), records.deep_view()) == Err::<
                Seq<Seq<Seq<char>>>,
                ReportErrorV,
            >(e@),
        },
{
    let ghost bindings = row_nodes.deep_view();
    let ghost recs = records.deep_view();
    let n = records.len();
    let mut out: Vec<TableRow> = Vec::new();
    let mut i: usize = 0;
    proof {
        assert(recs.take(0) =~= Seq::<JsonV>::empty());
        assert(out.deep_view() =~= Seq::<Seq<Seq<char>>>::empty());
    }
    while i < n
        invariant
            i <= n,
            n == records@.len(),
            bindings == row_nodes.deep_view(),
            recs == records.deep_view(),
            recs.len() == n,
            forall|k: int| 0 <= k < n ==> recs[k] == #[trigger] records@[k]@,
            spec_table_rows(bindings, recs.take(i as int)) == Ok::<
                Seq<Seq<Seq<char>>>,
                ReportErrorV,
            >(out.deep_view()),
        decreases n - i,
    {
        let ghost pre = out.deep_view();
        match build_row(row_nodes, &records[i]) {
            Ok(row) => {
                out.push(row);
                proof {
                    assert(spec_row_cells(bindings, recs[i as int]) == Ok::<
                        Seq<Seq<char>>,
                        ReportErrorV,
                    >(row@));
                    assert(recs.take(i + 1) =~= recs.take(i as int) + seq![recs[i as int]]);
                    lemma_spec_table_rows_add(bindings, recs.take(i as int), seq![recs[i as int]]);
                    assert(seq![recs[i as int]].drop_first() =~= Seq::<JsonV>::empty());
                    assert(spec_table_rows(bindings, Seq::<JsonV>::empty()) == Ok::<
                        Seq<Seq<Seq<char>>>,
                        ReportErrorV,
                    >(Seq::empty()));
                    assert(seq![recs[i as int]][0] == recs[i as int]);
                    assert(spec_table_rows(bindings, seq![recs[i as int]]) == Ok::<
                        Seq<Seq<Seq<char>>>,
                        ReportErrorV,
                    >(seq![row@] + Seq::empty()));
                    assert(seq![row@] + Seq::<Seq<Seq<char>>>::empty() =~= seq![row@]);
                    assert(out.deep_view() =~= pre + seq![row@]);
                }
            },
            Err(e) => {
                proof {
                    assert(recs =~= recs.take(i as int) + recs.skip(i as int));
                    lemma_spec_table_rows_add(bindings, recs.take(i as int), recs.skip(i as int));
                    assert(recs.skip(i as int)[0] == recs[i as int]);
                }
                return Err(e);
            },
        }
        i = i + 1;
    }
    proof {
        assert(recs.take(n as int) =~= recs);
    }
    Ok(out)
}

/// The table a template's sections and the data rows compile to: the column
/// headers, one row per record, and — when the footer section has any nodes —
/// one footer row appended after all data rows.
pub open spec fn spec_table(
    cols: Seq<NodeV>,
    bindings: Seq<NodeV>,
    footers: Seq<NodeV>,
    records: Seq<JsonV>,
    p: Map<Seq<char>, Seq<char>>,
) -> Result<ElementV, ReportErrorV> {
    match spec_headers(cols) {
        Err(e) => Err(e),
        Ok(hs) => match spec_table_rows(bindings, records) {
            Err(e) => Err(e),
            Ok(rs) => match spec_footer_cells(footers, p) {
                Err(e) => Err(e),
                Ok(fc) => Ok(
                    ElementV::Table {
                        headers: hs,
                        rows: if footers.len() > 0 {
                            rs + seq![fc]
                        } else {
                            rs
                        },
                    },
                ),
            },
        },
    }
}

/// Builds the whole table element.
pub fn build_table(
    columns: &Vec<Node>,
    row_nodes: &Vec<Node>,
    footer_nodes: &Vec<Node>,
    records: &Vec<Json>,
    params: &ParamMap,
) -> (r: Result<Element, ReportError>)
    ensures
        match r {
            Ok(el) => spec_table(
                columns.deep_view(),
                row_nodes.deep_view(),
                footer_nodes.deep_view(),
                records.deep_view(),
                params.as_map(),
            ) == Ok::<ElementV, ReportErrorV>(el@),
            Err(e) => spec_table(
                columns.deep_view(),
                row_nodes.deep_view(),
                footer_nodes.deep_view(),
                records.deep_view(),
                params.as_map(),
            ) == Err::<ElementV, ReportErrorV>(e@),
        },
{
    let headers = match build_headers(columns) {
        Ok(hs) => hs,
        Err(e) => {
            return Err(e);
        },
    };
    let mut rows = match build_rows(row_nodes, records) {
        Ok(rs) => rs,
        Err(e) => {
            return Err(e);
        },
    };
    let footer_cells = match build_footer_cells(footer_nodes, params) {
        Ok(cs) => cs,
        Err(e) => {
            return Err(e);
        },
    };
    let ghost rows_pre = rows.deep_view();
    if footer_nodes.len() > 0 {
        rows.push(TableRow { cells: footer_cells });
        proof {
            assert(rows.deep_view() =~= rows_pre + seq![
                spec_footer_cells(footer_nodes.deep_view(), params.as_map())->Ok_0,
            ]);
        }
    }
    Ok(Element::Table { headers, rows })
}

/// Table row count: the number of data rows, plus exactly one more when the
/// `column_footer` section produced at least one cell (it produces one cell
/// per footer node, so exactly when it has any nodes).
pub proof fn lemma_table_row_count(
    cols: Seq<NodeV>,
    bindings: Seq<NodeV>,
    footers: Seq<NodeV>,
    records: Seq<JsonV>,
    p: Map<Seq<char>, Seq<char>>,
)
    requires
        spec_table(cols, bindings, footers, records, p) is Ok,
    ensures
        spec_table(cols, bindings, footers, records, p)->Ok_0 matches ElementV::Table {
            headers,
            rows,
        } && rows.len() == records.len() + (if footers.len() > 0 {
            1int
        } else {
            0int
        }),
{
    lemma_table_rows_len(bindings, records);
}

/// A successful row computation yields exactly one row per record, each the
/// cells of its record.
pub proof fn lemma_table_rows_len(bindings: Seq<NodeV>, records: Seq<JsonV>)
    requires
        spec_table_rows(bindings, records) is Ok,
    ensures
        spec_table_rows(bindings, records)->Ok_0.len() == records.len(),
        forall|i: int| 0 <= i < records.len() ==> {
            &&& #[trigger] spec_row_cells(bindings, records[i]) is Ok
            &&& spec_table_rows(bindings, records)->Ok_0[i] == spec_row_cells(
                bindings,
                records[i],
            )->Ok_0
        },
    decreases records.len(),
{
    if records.len() > 0 {
        lemma_table_rows_len(bindings, records.drop_first());
        let c = spec_row_cells(bindings, records[0])->Ok_0;
        let rest = spec_table_rows(bindings, records.drop_first())->Ok_0;
        assert forall|i: int| 0 <= i < records.len() implies {
            &&& #[trigger] spec_row_cells(bindings, records[i]) is Ok
            &&& spec_table_rows(bindings, records)->Ok_0[i] == spec_row_cells(
                bindings,
                records[i],
            )->Ok_0
        } by {
            if i == 0 {
                assert((seq![c] + rest)[0] == c);
            } else {
                assert(records.drop_first()[i - 1] == records[i]);
                assert((seq![c] + rest)[i] == rest[i - 1]);
            }
        }
    }
}

/// Every row of a successful table holds at most as many cells as the row
/// section declares bindings.
pub proof fn lemma_table_cells_bounded(
    cols: Seq<NodeV>,
    bindings: Seq<NodeV>,
    footers: Seq<NodeV>,
    records: Seq<JsonV>,
    p: Map<Seq<char>, Seq<char>>,
)
    requires
        spec_table(cols, bindings, footers, records, p) is Ok,
    ensures
        spec_table(cols, bindings, footers, records, p)->Ok_0 matches ElementV::Table {
            headers,
            rows,
        } && forall|i: int| 0 <= i < records.len() ==> #[trigger] rows[i].len() <= bindings.len(),
{
    lemma_table_rows_len(bindings, records);
    let rows = spec_table_rows(bindings, records)->Ok_0;
    assert forall|i: int| 0 <= i < records.len() implies #[trigger] rows[i].len()
        <= bindings.len() by {
        lemma_row_cells_bounded(bindings, records[i]);
    }
    if footers.len() > 0 {
        let full = rows + seq![spec_footer_cells(footers, p)->Ok_0];
        assert(forall|i: int| 0 <= i < records.len() ==> full[i] == rows[i]);
    }
}

} // verus!

