use vstd::prelude::*;
use vstd::string::StringExecFns;

use crate::bytes::{lemma_pow256_values, signed_of};
use crate::cells::{spec_cells, Cell, CellV};
use crate::error::Error;
use crate::pages::Page;
use crate::record::{spec_parse_payload, spec_value_text, Value, ValueV};
use crate::schema::Schema;
use crate::sql::{spec_positions, CreateTable, CreateTableV, Select, SelectV};

verus! {

/// The index of the first catalog entry whose name equals `name`; its
/// absence is a semantic lookup failure, distinct from decode and syntax
/// errors.
pub fn find_table(schema: &Vec<Schema>, name: &String) -> (r: Result<usize, Error>)
    ensures
        match r {
            Ok(i) => {
                &&& i < schema@.len()
                &&& schema@[i as int].name@ == name@
                &&& forall|j: int| 0 <= j < i ==> schema@[j].name@ != name@
            },
            Err(e) => {
                &&& e == Error::TableNotFound
                &&& forall|j: int| 0 <= j < schema@.len() ==> schema@[j].name@ != name@
            },
        },
{
    let mut i: usize = 0;
    while i < schema.len()
        invariant
            i <= schema@.len(),
            forall|j: int| 0 <= j < i ==> schema@[j].name@ != name@,
        decreases schema@.len() - i,
    {
        if schema[i].name.eq(name) {
            return Ok(i);
        }
        i = i + 1;
    }
    Err(Error::TableNotFound)
}

/// The row id reinterpreted as the signed 64-bit key it carries.
fn rowid_to_i64(v: u64) -> (r: i64)
    ensures
        r as int == signed_of(v as int, 8),
{
    proof {
        lemma_pow256_values();
    }
    if v >= 0x8000000000000000 {
        ((v - 0x8000000000000000) as i64) + i64::MIN
    } else {
        v as i64
    }
}

/// The row with the cell's row id substituted for the primary-key alias
/// column wherever that column's stored value is null.
pub open spec fn spec_substitute(
    row: Seq<ValueV>,
    rowid: u64,
    cols: Seq<Seq<char>>,
    key: Option<Seq<char>>,
) -> Seq<ValueV> {
    Seq::new(
        row.len(),
        |p: int|
            if 0 <= p < cols.len() && key == Some(cols[p]) && row[p] is Null {
                ValueV::Integer(signed_of(rowid as int, 8) as i64)
            } else {
                row[p]
            },
    )
}

/// The projection of a row onto the requested positions, in request
/// order; a row too short for some position fails.
pub open spec fn spec_project(row: Seq<ValueV>, positions: Seq<int>) -> Result<
    Seq<ValueV>,
    Error,
>
    decreases positions.len(),
{
    if positions.len() == 0 {
        Ok(seq![])
    } else if !(0 <= positions[0] < row.len()) {
        Err(Error::ShortRow)
    } else {
        match spec_project(row, positions.skip(1)) {
            Err(e) => Err(e),
            Ok(rest) => Ok(seq![row[positions[0]]] + rest),
        }
    }
}

/// What one cell of the scanned table page contributes to the result: a
/// table-leaf cell's payload decoded into a row, the primary-key alias
/// substituted, and the row projected; any other cell kind fails.
pub open spec fn spec_row_of_cell(c: CellV, ct: CreateTableV, positions: Seq<int>) -> Result<
    Seq<ValueV>,
    Error,
> {
    match c {
        CellV::TableLeaf { rowid, payload } => match spec_parse_payload(payload.payload) {
            Err(e) => Err(e),
            Ok(row) => spec_project(spec_substitute(row, rowid, ct.columns, ct.key), positions),
        },
        _ => Err(Error::PayloadlessCell),
    }
}

/// What scanning a sequence of cells yields: one projected row per cell,
/// in cell order.
pub open spec fn spec_rows_of_cells(
    cs: Seq<CellV>,
    ct: CreateTableV,
    positions: Seq<int>,
) -> Result<Seq<Seq<ValueV>>, Error>
    decreases cs.len(),
{
    if cs.len() == 0 {
        Ok(seq![])
    } else {
        match spec_row_of_cell(cs[0], ct, positions) {
            Err(e) => Err(e),
            Ok(row) => match spec_rows_of_cells(cs.skip(1), ct, positions) {
                Err(e) => Err(e),
                Ok(rest) => Ok(seq![row] + rest),
            },
        }
    }
}

/// What a `SELECT` resolved against the table's declared columns yields
/// on the table's root page: every cell decoded in pointer order, each
/// row projected onto the requested columns.
pub open spec fn spec_select_rows(p: Page, ct: CreateTableV, sel: SelectV) -> Result<
    Seq<Seq<ValueV>>,
    Error,
> {
    match spec_cells(p) {
        Err(e) => Err(e),
        Ok(cs) => spec_rows_of_cells(cs, ct, spec_positions(ct.columns, sel.columns)),
    }
}

fn project_cell_row(
    row: &Vec<Value>,
    rowid: u64,
    create: &CreateTable,
    positions: &Vec<usize>,
) -> (r: Result<Vec<Value>, Error>)
    requires
        forall|k: int| 0 <= k < positions@.len() ==> positions@[k] < create.columns@.len(),
    ensures
        match r {
            Ok(vs) => spec_project(
                spec_substitute(
                    row@.map_values(|v: Value| v@),
                    rowid,
                    create@.columns,
                    create@.key,
                ),
                positions@.map_values(|p: usize| p as int),
            ) == Ok::<_, Error>(vs@.map_values(|v: Value| v@)),
            Err(e) => spec_project(
                spec_substitute(
                    row@.map_values(|v: Value| v@),
                    rowid,
                    create@.columns,
                    create@.key,
                ),
                positions@.map_values(|p: usize| p as int),
            ) == Err::<Seq<ValueV>, _>(e),
        },
{
    let ghost rv = row@.map_values(|v: Value| v@);
    let ghost sub = spec_substitute(rv, rowid, create@.columns, create@.key);
    let ghost ps = positions@.map_values(|p: usize| p as int);
    let mut out: Vec<Value> = Vec::new();
    let mut j: usize = 0;
    proof {
        assert(ps.skip(0) =~= ps);
        assert(out@.map_values(|v: Value| v@) + spec_project(sub, ps)->Ok_0 =~= spec_project(
            sub,
            ps,
        )->Ok_0) by {
            if spec_project(sub, ps) is Ok {
            }
        }
    }
    while j < positions.len()
        invariant
            j <= positions@.len(),
            rv == row@.map_values(|v: Value| v@),
            sub == spec_substitute(rv, rowid, create@.columns, create@.key),
            ps == positions@.map_values(|p: usize| p as int),
            forall|k: int| 0 <= k < positions@.len() ==> positions@[k] < create.columns@.len(),
            spec_project(sub, ps) == (match spec_project(sub, ps.skip(j as int)) {
                Ok(rest) => Ok::<Seq<ValueV>, Error>(
                    out@.map_values(|v: Value| v@) + rest,
                ),
                Err(e) => Err(e),
            }),
        decreases positions@.len() - j,
    {
        let p = positions[j];
        proof {
            assert(ps.skip(j as int)[0] == p as int);
            assert(ps.skip(j as int).skip(1) =~= ps.skip(j + 1));
        }
        if p >= row.len() {
            return Err(Error::ShortRow);
        }
        let is_key = match &create.key {
            Some(k) => k.eq(&create.columns[p]),
            None => false,
        };
        proof {
            assert(create@.columns[p as int] == create.columns@[p as int]@);
        }
        let v = match &row[p] {
            Value::Null => {
                if is_key {
                    Value::Integer(rowid_to_i64(rowid))
                } else {
                    Value::Null
                }
            },
            other => other.duplicate(),
        };
        proof {
            assert(rv[p as int] == row@[p as int]@);
            assert(v@ == sub[p as int]);
        }
        let ghost old_out = out@;
        let ghost v_view = v@;
        out.push(v);
        j = j + 1;
        proof {
            assert(out@.map_values(|x: Value| x@) =~= old_out.map_values(|x: Value| x@).push(
                v_view,
            ));
            if spec_project(sub, ps.skip(j as int)) is Ok {
                let rest = spec_project(sub, ps.skip(j as int))->Ok_0;
                assert(old_out.map_values(|x: Value| x@) + (seq![v_view] + rest)
                    =~= out@.map_values(|x: Value| x@) + rest);
            }
        }
    }
    proof {
        assert(ps.skip(j as int).len() == 0);
        assert(out@.map_values(|v: Value| v@) + seq![] =~= out@.map_values(|v: Value| v@));
    }
    Ok(out)
}

/// Resolves `stmt` against the table's declared columns and scans the
/// table's root page: every cell is decoded in pointer order, each row's
/// primary-key alias is substituted from the cell's row id where the
/// stored value is null, and the requested columns are emitted in request
/// order. Cells of any other kind than table-leaf fail: rows spanning
/// further pages are not followed here.
pub fn select_rows(page: &Page, create: &CreateTable, stmt: &Select) -> (r: Result<
    Vec<Vec<Value>>,
    Error,
>)
    ensures
        match r {
            Ok(rows) => spec_select_rows(*page, create@, stmt@) == Ok::<_, Error>(
                rows@.map_values(|row: Vec<Value>| row@.map_values(|v: Value| v@)),
            ),
            Err(e) => spec_select_rows(*page, create@, stmt@) == Err::<Seq<Seq<ValueV>>, _>(e),
        },
{
    let positions = create.select(stmt);
    let cells = match page.cells() {
        Ok(cs) => cs,
        Err(e) => {
            return Err(e);
        },
    };
    let ghost cvs = cells@.map_values(|c: Cell| c@);
    let ghost ps = positions@.map_values(|p: usize| p as int);
    let mut rows: Vec<Vec<Value>> = Vec::new();
    let mut i: usize = 0;
    proof {
        assert(cvs.skip(0) =~= cvs);
        assert(rows@.map_values(|row: Vec<Value>| row@.map_values(|v: Value| v@))
            + spec_rows_of_cells(cvs, create@, ps)->Ok_0 =~= spec_rows_of_cells(
            cvs,
            create@,
            ps,
        )->Ok_0) by {
            if spec_rows_of_cells(cvs, create@, ps) is Ok {
            }
        }
    }
    while i < cells.len()
        invariant
            i <= cells@.len(),
            cvs == cells@.map_values(|c: Cell| c@),
            ps == positions@.map_values(|p: usize| p as int),
            ps == spec_positions(create@.columns, stmt@.columns),
            forall|k: int| 0 <= k < positions@.len() ==> positions@[k] < create.columns@.len(),
            spec_rows_of_cells(cvs, create@, ps) == (match spec_rows_of_cells(
                cvs.skip(i as int),
                create@,
                ps,
            ) {
                Ok(rest) => Ok::<Seq<Seq<ValueV>>, Error>(
                    rows@.map_values(|row: Vec<Value>| row@.map_values(|v: Value| v@)) + rest,
                ),
                Err(e) => Err(e),
            }),
        decreases cells@.len() - i,
    {
        proof {
            assert(cvs.skip(i as int)[0] == cells@[i as int]@);
            assert(cvs.skip(i as int).skip(1) =~= cvs.skip(i + 1));
        }
        let row = match &cells[i] {
            Cell::TableLeaf { rowid, payload } => {
                let full = match payload.parse() {
                    Ok(f) => f,
                    Err(e) => {
                        return Err(e);
                    },
                };
                match project_cell_row(&full, *rowid, create, &positions) {
                    Ok(r) => r,
                    Err(e) => {
                        return Err(e);
                    },
                }
            },
            _ => {
                return Err(Error::PayloadlessCell);
            },
        };
        let ghost old_rows = rows@;
        let ghost row_view = row@.map_values(|v: Value| v@);
        rows.push(row);
        i = i + 1;
        proof {
            assert(rows@.map_values(|r2: Vec<Value>| r2@.map_values(|v: Value| v@))
                =~= old_rows.map_values(|r2: Vec<Value>| r2@.map_values(|v: Value| v@)).push(
                row_view,
            ));
            if spec_rows_of_cells(cvs.skip(i as int), create@, ps) is Ok {
                let rest = spec_rows_of_cells(cvs.skip(i as int), create@, ps)->Ok_0;
                assert(old_rows.map_values(|r2: Vec<Value>| r2@.map_values(|v: Value| v@)) + (
                seq![row_view] + rest) =~= rows@.map_values(
                    |r2: Vec<Value>| r2@.map_values(|v: Value| v@),
                ) + rest);
            }
        }
    }
    proof {
        assert(cvs.skip(i as int).len() == 0);
        assert(rows@.map_values(|row: Vec<Value>| row@.map_values(|v: Value| v@)) + seq![]
            =~= rows@.map_values(|row: Vec<Value>| row@.map_values(|v: Value| v@)));
    }
    Ok(rows)
}

/// The pipe-joined textual representations of a projected row, one `|`
/// between fields.
pub open spec fn spec_row_line(vals: Seq<ValueV>) -> Option<Seq<char>>
    decreases vals.len(),
{
    if vals.len() == 0 {
        Some(seq![])
    } else if vals.len() == 1 {
        spec_value_text(vals[0])
    } else {
        match (spec_value_text(vals[0]), spec_row_line(vals.skip(1))) {
            (Some(a), Some(rest)) => Some(a + seq!['|'] + rest),
            _ => None,
        }
    }
}

fn row_line_from(row: &Vec<Value>, i: usize) -> (r: Option<String>)
    requires
        i <= row@.len(),
    ensures
        match r {
            Some(s) => spec_row_line(row@.map_values(|v: Value| v@).skip(i as int)) == Some(s@),
            None => spec_row_line(row@.map_values(|v: Value| v@).skip(i as int)) is None,
        },
    decreases row@.len() - i,
{
    let ghost rv = row@.map_values(|v: Value| v@);
    let n = row.len();
    if i >= n {
        proof {
            assert(rv.skip(i as int).len() == 0);
        }
        Some(String::new())
    } else {
        proof {
            assert(rv.skip(i as int)[0] == row@[i as int]@);
        }
        match row[i].text() {
            None => None,
            Some(mut s) => {
                if i + 1 == n {
                    proof {
                        assert(rv.skip(i as int).len() == 1);
                    }
                    Some(s)
                } else {
                    match row_line_from(row, i + 1) {
                        None => {
                            proof {
                                assert(rv.skip(i as int).skip(1) =~= rv.skip(i + 1));
                            }
                            None
                        },
                        Some(rest) => {
                            s.append("|");
                            s.append(rest.as_str());
                            proof {
                                reveal_strlit("|");
                                assert("|"@ =~= seq!['|']);
                                assert(rv.skip(i as int).skip(1) =~= rv.skip(i + 1));
                            }
                            Some(s)
                        },
                    }
                }
            },
        }
    }
}

/// Renders a projected row as one output line: the textual representation
/// of each value, joined by single `|` characters. `None` when some value
/// is a float, whose rendering is left to callers.
pub fn row_line(row: &Vec<Value>) -> (r: Option<String>)
    ensures
        match r {
            Some(s) => spec_row_line(row@.map_values(|v: Value| v@)) == Some(s@),
            None => spec_row_line(row@.map_values(|v: Value| v@)) is None,
        },
{
    proof {
        assert(row@.map_values(|v: Value| v@).skip(0) =~= row@.map_values(|v: Value| v@));
    }
    row_line_from(row, 0)
}

} // verus!
