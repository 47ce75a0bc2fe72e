use sqlite_reader::cells::Cell;
use sqlite_reader::pages::{file_page_size, Page};
use sqlite_reader::query::{find_table, row_line, select_rows};
use sqlite_reader::schema::{get_schema, table_names};
use sqlite_reader::sql::{CreateTable, Select};

/// A table-leaf cell whose record has one text column holding `ch`:
/// payload-size varint, row-id varint, then the record.
fn one_text_cell(rowid: u8, ch: u8) -> Vec<u8> {
    vec![3, rowid, 2, 15, ch]
}

/// A table-leaf cell whose record is (NULL, one-character text): the
/// integer-primary-key column is stored as NULL and aliased to the row id.
fn id_name_cell(rowid: u8, ch: u8) -> Vec<u8> {
    vec![4, rowid, 3, 0, 15, ch]
}

fn put(page: &mut [u8], at: usize, bytes: &[u8]) {
    page[at..at + bytes.len()].copy_from_slice(bytes);
}

#[test]
fn cells_come_in_pointer_order_not_rowid_order() {
    let mut data = vec![0u8; 256];
    // table-leaf header: 3 cells, content area from 200
    put(&mut data, 0, &[13, 0, 0, 0, 3, 0, 200, 0]);
    // pointer array: 220, 200, 210
    put(&mut data, 8, &[0, 220, 0, 200, 0, 210]);
    put(&mut data, 200, &one_text_cell(30, b'x'));
    put(&mut data, 210, &one_text_cell(10, b'y'));
    put(&mut data, 220, &one_text_cell(20, b'z'));

    let page = Page::from_bytes(2, data).unwrap();
    let cells = page.cells().unwrap();
    assert_eq!(cells.len(), 3);
    let got: Vec<(u64, Vec<u8>)> = cells
        .iter()
        .map(|c| match c {
            Cell::TableLeaf { rowid, payload } => (*rowid, payload.payload.clone()),
            other => panic!("expected a table-leaf cell, got {:?}", other),
        })
        .collect();
    assert_eq!(
        got,
        vec![
            (20, vec![2, 15, b'z']),
            (30, vec![2, 15, b'x']),
            (10, vec![2, 15, b'y']),
        ]
    );
}

/// The record of one schema-table row, five columns:
/// (type, name, table-name, root-page, sql).
fn schema_payload(stype: &str, name: &str, tbl: &str, rootpage: u8, sql: &str) -> Vec<u8> {
    let mut p = vec![
        6u8,
        (13 + 2 * stype.len()) as u8,
        (13 + 2 * name.len()) as u8,
        (13 + 2 * tbl.len()) as u8,
        1,
        (13 + 2 * sql.len()) as u8,
    ];
    p.extend_from_slice(stype.as_bytes());
    p.extend_from_slice(name.as_bytes());
    p.extend_from_slice(tbl.as_bytes());
    p.push(rootpage);
    p.extend_from_slice(sql.as_bytes());
    p
}

fn fixture_page1() -> Vec<u8> {
    let sql = "CREATE TABLE t (id integer primary key, name text)";
    let payload = schema_payload("table", "t", "t", 2, sql);
    let mut cell = vec![payload.len() as u8, 1];
    cell.extend_from_slice(&payload);

    let mut data = vec![0u8; 512];
    data[16] = 0x02; // page size 512, big-endian at offset 16
    put(&mut data, 100, &[13, 0, 0, 0, 1, 0x01, 0x2c, 0]);
    put(&mut data, 108, &[0x01, 0x2c]); // one cell, at offset 300
    put(&mut data, 300, &cell);
    data
}

fn fixture_page2() -> Vec<u8> {
    let mut data = vec![0u8; 512];
    put(&mut data, 0, &[13, 0, 0, 0, 3, 0x01, 0x90, 0]);
    put(&mut data, 8, &[0x01, 0x90, 0x01, 0xa4, 0x01, 0xb8]); // 400, 420, 440
    put(&mut data, 400, &id_name_cell(1, b'a'));
    put(&mut data, 420, &id_name_cell(2, b'b'));
    put(&mut data, 440, &id_name_cell(3, b'c'));
    data
}

#[test]
fn dbinfo_reports_page_size_and_schema_cell_count() {
    let page1 = Page::from_bytes(1, fixture_page1()).unwrap();
    assert_eq!(file_page_size(&page1.data), Ok(512));
    assert_eq!(page1.header.cell_count, 1);
}

#[test]
fn tables_lists_the_one_table() {
    let page1 = Page::from_bytes(1, fixture_page1()).unwrap();
    let schema = get_schema(&page1).unwrap();
    let names = table_names(&schema);
    assert_eq!(names, vec!["t".to_string()]);
}

#[test]
fn select_name_returns_rows_in_pointer_order() {
    let page1 = Page::from_bytes(1, fixture_page1()).unwrap();
    let schema = get_schema(&page1).unwrap();
    let stmt = Select::parse("select name from t").unwrap();
    let idx = find_table(&schema, &stmt.name).unwrap();
    assert_eq!(schema[idx].rootpage, 2);
    let create = CreateTable::parse(&schema[idx].sql).unwrap();
    assert_eq!(create.key, Some("id".to_string()));

    let page2 = Page::from_bytes(2, fixture_page2()).unwrap();
    let rows = select_rows(&page2, &create, &stmt).unwrap();
    let lines: Vec<String> = rows.iter().map(|r| row_line(r).unwrap()).collect();
    assert_eq!(lines, vec!["a", "b", "c"]);
}

#[test]
fn select_id_name_substitutes_the_rowid_for_the_alias() {
    let page1 = Page::from_bytes(1, fixture_page1()).unwrap();
    let schema = get_schema(&page1).unwrap();
    let stmt = Select::parse("select id, name from t").unwrap();
    let idx = find_table(&schema, &stmt.name).unwrap();
    let create = CreateTable::parse(&schema[idx].sql).unwrap();

    let page2 = Page::from_bytes(2, fixture_page2()).unwrap();
    let rows = select_rows(&page2, &create, &stmt).unwrap();
    let lines: Vec<String> = rows.iter().map(|r| row_line(r).unwrap()).collect();
    assert_eq!(lines, vec!["1|a", "2|b", "3|c"]);
}

#[test]
fn selecting_a_missing_table_is_a_lookup_failure() {
    let page1 = Page::from_bytes(1, fixture_page1()).unwrap();
    let schema = get_schema(&page1).unwrap();
    let stmt = Select::parse("select name from nosuch").unwrap();
    assert!(find_table(&schema, &stmt.name).is_err());
}
