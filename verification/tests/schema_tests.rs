use sqlite_reader::error::Error;
use sqlite_reader::pages::Page;
use sqlite_reader::query::{find_table, select_rows};
use sqlite_reader::record::Value;
use sqlite_reader::schema::{get_schema, schema_from_row, SchemaType};
use sqlite_reader::sql::{CreateTable, Select};

#[test]
fn schema_type_from_str() {
    assert_eq!(SchemaType::from_str("table"), Ok(SchemaType::Table));
    assert_eq!(SchemaType::from_str("index"), Ok(SchemaType::Index));
    assert_eq!(SchemaType::from_str("view"), Ok(SchemaType::View));
    assert_eq!(SchemaType::from_str("trigger"), Ok(SchemaType::Trigger));
    assert_eq!(SchemaType::from_str("sequence"), Err(Error::BadSchemaType));
    assert_eq!(SchemaType::from_str(""), Err(Error::BadSchemaType));
}

fn text(s: &str) -> Value {
    Value::Text(String::from(s))
}

#[test]
fn schema_row_of_the_expected_shape() {
    let row = vec![
        text("table"),
        text("apples"),
        text("apples"),
        Value::Integer(3),
        text("create table apples (id integer primary key)"),
    ];
    let entry = schema_from_row(&row).unwrap();
    assert_eq!(entry.stype, SchemaType::Table);
    assert_eq!(entry.name, "apples");
    assert_eq!(entry.table_name, "apples");
    assert_eq!(entry.rootpage, 3);
}

#[test]
fn schema_row_with_wrong_shape_fails() {
    // four columns instead of five
    let short = vec![text("table"), text("a"), text("a"), Value::Integer(2)];
    assert_eq!(schema_from_row(&short), Err(Error::BadSchemaRow));
    // a root page below 1 is not a page id
    let bad_root = vec![
        text("table"),
        text("a"),
        text("a"),
        Value::Integer(0),
        text("create table a (x int)"),
    ];
    assert_eq!(schema_from_row(&bad_root), Err(Error::BadSchemaRow));
    // the type column must be text
    let bad_type = vec![
        Value::Integer(1),
        text("a"),
        text("a"),
        Value::Integer(2),
        text("create table a (x int)"),
    ];
    assert_eq!(schema_from_row(&bad_type), Err(Error::BadSchemaRow));
    // an unknown type text is a distinct failure
    let unknown = vec![
        text("sequence"),
        text("a"),
        text("a"),
        Value::Integer(2),
        text("create table a (x int)"),
    ];
    assert_eq!(schema_from_row(&unknown), Err(Error::BadSchemaType));
}

fn put(page: &mut [u8], at: usize, bytes: &[u8]) {
    page[at..at + bytes.len()].copy_from_slice(bytes);
}

#[test]
fn schema_scan_fails_on_a_payloadless_cell() {
    // page 1 with a table-interior layout: its cells carry no payload
    let mut data = vec![0u8; 512];
    put(&mut data, 100, &[5, 0, 0, 0, 1, 0x01, 0x2c, 0, 0, 0, 0, 9]);
    put(&mut data, 112, &[0x01, 0x2c]);
    put(&mut data, 300, &[0, 0, 0, 7, 42]); // child page 7, row id 42
    let page = Page::from_bytes(1, data).unwrap();
    assert_eq!(get_schema(&page), Err(Error::PayloadlessCell));
}

#[test]
fn select_fails_on_an_interior_root_page() {
    let mut data = vec![0u8; 256];
    put(&mut data, 0, &[5, 0, 0, 0, 1, 0, 200, 0, 0, 0, 0, 9]);
    put(&mut data, 12, &[0, 200]);
    put(&mut data, 200, &[0, 0, 0, 7, 42]);
    let page = Page::from_bytes(3, data).unwrap();
    let create = CreateTable::parse("create table t (a int)").unwrap();
    let stmt = Select::parse("select a from t").unwrap();
    assert_eq!(
        select_rows(&page, &create, &stmt),
        Err(Error::PayloadlessCell)
    );
}

#[test]
fn select_fails_on_a_row_shorter_than_the_projection() {
    // rows hold one column, but the table declares two and b is requested
    let mut data = vec![0u8; 256];
    put(&mut data, 0, &[13, 0, 0, 0, 1, 0, 200, 0]);
    put(&mut data, 8, &[0, 200]);
    put(&mut data, 200, &[3, 1, 2, 15, b'a']);
    let page = Page::from_bytes(3, data).unwrap();
    let create = CreateTable::parse("create table t (a text, b text)").unwrap();
    let stmt = Select::parse("select b from t").unwrap();
    assert_eq!(select_rows(&page, &create, &stmt), Err(Error::ShortRow));
}

#[test]
fn find_table_reports_a_lookup_failure() {
    let schema = Vec::new();
    let name = String::from("t");
    assert_eq!(find_table(&schema, &name), Err(Error::TableNotFound));
}
