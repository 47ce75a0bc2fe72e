use vstd::prelude::*;

use crate::cells::{spec_cells, spec_payload_of, CellV};
use crate::error::Error;
use crate::pages::Page;
use crate::record::{spec_parse_payload, Value, ValueV};
use crate::text::str_eq;

verus! {

/// The type column of a schema-table row.
#[derive(Debug, Clone, Copy, PartialEq, Eq, Structural)]
pub enum SchemaType {
    Table,
    Index,
    View,
    Trigger,
}

/// The schema type a type-column text decodes to, if any.
pub open spec fn spec_schema_type(s: Seq<char>) -> Option<SchemaType> {
    if s == "table"@ {
        Some(SchemaType::Table)
    } else if s == "index"@ {
        Some(SchemaType::Index)
    } else if s == "view"@ {
        Some(SchemaType::View)
    } else if s == "trigger"@ {
        Some(SchemaType::Trigger)
    } else {
        None
    }
}

impl SchemaType {
    /// Decodes a schema row's type text.
    pub fn from_str(s: &str) -> (r: Result<SchemaType, Error>)
        ensures
            match r {
                Ok(t) => spec_schema_type(s@) == Some(t),
                Err(e) => e == Error::BadSchemaType && spec_schema_type(s@) is None,
            },
    {
        if str_eq(s, "table") {
            Ok(SchemaType::Table)
        } else if str_eq(s, "index") {
            Ok(SchemaType::Index)
        } else if str_eq(s, "view") {
            Ok(SchemaType::View)
        } else if str_eq(s, "trigger") {
            Ok(SchemaType::Trigger)
        } else {
            Err(Error::BadSchemaType)
        }
    }
}

/// One row of the reserved schema table: object type, object name, owning
/// table name, root page id, and the defining SQL text.
#[derive(Debug, PartialEq)]
pub struct Schema {
    pub stype: SchemaType,
    pub name: String,
    pub table_name: String,
    pub rootpage: u64,
    pub sql: String,
}

/// The mathematical shape of a [`Schema`] entry.
pub struct SchemaV {
    pub stype: SchemaType,
    pub name: Seq<char>,
    pub table_name: Seq<char>,
    pub rootpage: u64,
    pub sql: Seq<char>,
}

impl View for Schema {
    type V = SchemaV;

    open spec fn view(&self) -> SchemaV {
        SchemaV {
            stype: self.stype,
            name: self.name@,
            table_name: self.table_name@,
            rootpage: self.rootpage,
            sql: self.sql@,
        }
    }
}

/// What mapping one decoded schema-table row to a schema entry yields:
/// the row must have the fixed five-column shape (text type, text name,
/// text table-name, integer root page at least 1, text SQL).
pub open spec fn spec_schema_row(row: Seq<ValueV>) -> Result<SchemaV, Error> {
    if row.len() != 5 {
        Err(Error::BadSchemaRow)
    } else {
        match (row[0], row[1], row[2], row[3], row[4]) {
            (
                ValueV::Text(t),
                ValueV::Text(name),
                ValueV::Text(table_name),
                ValueV::Integer(rp),
                ValueV::Text(sql),
            ) => match spec_schema_type(t) {
                None => Err(Error::BadSchemaType),
                Some(stype) => {
                    if rp < 1 {
                        Err(Error::BadSchemaRow)
                    } else {
                        Ok(SchemaV { stype, name, table_name, rootpage: rp as u64, sql })
                    }
                },
            },
            _ => Err(Error::BadSchemaRow),
        }
    }
}

/// Maps one decoded schema-table row to a schema entry.
pub fn schema_from_row(row: &Vec<Value>) -> (r: Result<Schema, Error>)
    ensures
        match r {
            Ok(s) => spec_schema_row(row@.map_values(|v: Value| v@)) == Ok::<_, Error>(s@),
            Err(e) => spec_schema_row(row@.map_values(|v: Value| v@)) == Err::<SchemaV, _>(e),
        },
{
    if row.len() != 5 {
        return Err(Error::BadSchemaRow);
    }
    match (&row[0], &row[1], &row[2], &row[3], &row[4]) {
        (
            Value::Text(t),
            Value::Text(name),
            Value::Text(table_name),
            Value::Integer(rp),
            Value::Text(sql),
        ) => {
            let stype = match SchemaType::from_str(t.as_str()) {
                Ok(st) => st,
                Err(e) => {
                    return Err(e);
                },
            };
            if *rp < 1 {
                return Err(Error::BadSchemaRow);
            }
            Ok(
                Schema {
                    stype,
                    name: name.clone(),
                    table_name: table_name.clone(),
                    rootpage: *rp as u64,
                    sql: sql.clone(),
                },
            )
        },
        _ => Err(Error::BadSchemaRow),
    }
}

/// What mapping a sequence of schema-table cells to schema entries
/// yields: each cell's payload is decoded as a record and shaped into an
/// entry; a payloadless (table interior) cell fails.
pub open spec fn spec_schema_of_cells(cs: Seq<CellV>) -> Result<Seq<SchemaV>, Error>
    decreases cs.len(),
{
    if cs.len() == 0 {
        Ok(seq![])
    } else {
        match spec_payload_of(cs[0]) {
            None => Err(Error::PayloadlessCell),
            Some(pl) => match spec_parse_payload(pl.payload) {
                Err(e) => Err(e),
                Ok(row) => match spec_schema_row(row) {
                    Err(e) => Err(e),
                    Ok(s) => match spec_schema_of_cells(cs.skip(1)) {
                        Err(e) => Err(e),
                        Ok(rest) => Ok(seq![s] + rest),
                    },
                },
            },
        }
    }
}

/// What scanning the schema page (page 1, the reserved schema table)
/// yields: its cells in pointer order, each mapped to a schema entry.
pub open spec fn spec_schema(p: Page) -> Result<Seq<SchemaV>, Error> {
    match spec_cells(p) {
        Err(e) => Err(e),
        Ok(cs) => spec_schema_of_cells(cs),
    }
}

/// Scans the schema page into its typed schema entries.
pub fn get_schema(page: &Page) -> (r: Result<Vec<Schema>, Error>)
    ensures
        match r {
            Ok(ss) => spec_schema(*page) == Ok::<_, Error>(ss@.map_values(|s: Schema| s@)),
            Err(e) => spec_schema(*page) == Err::<Seq<SchemaV>, _>(e),
        },
{
    let cells = match page.cells() {
        Ok(cs) => cs,
        Err(e) => {
            return Err(e);
        },
    };
    let ghost cvs = cells@.map_values(|c: crate::cells::Cell| c@);
    let mut out: Vec<Schema> = Vec::new();
    let mut i: usize = 0;
    proof {
        assert(cvs.skip(0) =~= cvs);
        assert(out@.map_values(|s: Schema| s@) + spec_schema_of_cells(cvs)->Ok_0
            =~= spec_schema_of_cells(cvs)->Ok_0) by {
            if spec_schema_of_cells(cvs) is Ok {
            }
        }
    }
    while i < cells.len()
        invariant
            i <= cells@.len(),
            cvs == cells@.map_values(|c: crate::cells::Cell| c@),
            spec_schema_of_cells(cvs) == (match spec_schema_of_cells(cvs.skip(i as int)) {
                Ok(rest) => Ok::<Seq<SchemaV>, Error>(
                    out@.map_values(|s: Schema| s@) + rest,
                ),
                Err(e) => Err(e),
            }),
        decreases cells@.len() - i,
    {
        proof {
            assert(cvs.skip(i as int)[0] == cells@[i as int]@);
        }
        let pl = match cells[i].get_payload() {
            Some(pl) => pl,
            None => {
                return Err(Error::PayloadlessCell);
            },
        };
        let row = match pl.parse() {
            Ok(row) => row,
            Err(e) => {
                return Err(e);
            },
        };
        let s = match schema_from_row(&row) {
            Ok(s) => s,
            Err(e) => {
                return Err(e);
            },
        };
        let ghost old_out = out@;
        let ghost s_view = s@;
        out.push(s);
        i = i + 1;
        proof {
            assert(cvs.skip(i - 1).skip(1) =~= cvs.skip(i as int));
            assert(out@.map_values(|x: Schema| x@) =~= old_out.map_values(
                |x: Schema| x@,
            ).push(s_view));
            if spec_schema_of_cells(cvs.skip(i as int)) is Ok {
                let rest = spec_schema_of_cells(cvs.skip(i as int))->Ok_0;
                assert(old_out.map_values(|x: Schema| x@) + (seq![s_view] + rest)
                    =~= out@.map_values(|x: Schema| x@) + rest);
            }
        }
    }
    proof {
        assert(cvs.skip(i as int).len() == 0);
        assert(out@.map_values(|s: Schema| s@) + seq![] =~= out@.map_values(
            |s: Schema| s@,
        ));
    }
    Ok(out)
}

/// The object names of the catalog, in catalog order.
pub fn table_names(schema: &Vec<Schema>) -> (r: Vec<String>)
    ensures
        r@.len() == schema@.len(),
        forall|i: int| 0 <= i < schema@.len() ==> r@[i]@ == schema@[i].name@,
{
    let mut names: Vec<String> = Vec::new();
    let mut i: usize = 0;
    while i < schema.len()
        invariant
            i <= schema@.len(),
            names@.len() == i,
            forall|j: int| 0 <= j < i ==> names@[j]@ == schema@[j].name@,
        decreases schema@.len() - i,
    {
        names.push(schema[i].name.clone());
        i = i + 1;
    }
    names
}

} // verus!
