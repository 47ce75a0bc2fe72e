use sqlite_reader::error::Error;
use sqlite_reader::sql::{CreateTable, Select};

#[test]
fn sql_create_table() {
    let sql = "CREATE TABLE apples
    (
            id integer primary key autoincrement,
            name text,
            color text
    )";
    let table: CreateTable = CreateTable::parse(sql).unwrap();
    let expected = CreateTable {
        name: "apples".to_string(),
        columns: vec!["id".to_owned(), "name".to_owned(), "color".to_owned()],
        key: Some("id".to_owned()),
    };
    assert_eq!(table, expected);
}

#[test]
fn sql_select() {
    let sql = "SELECT name FROM apples";
    let sel: Select = Select::parse(sql).unwrap();
    let expected = Select {
        name: "apples".to_owned(),
        columns: vec!["name".to_owned()],
    };
    assert_eq!(sel, expected);
}

#[test]
fn sql_multi_select() {
    let sql = "SELECT name, description FROM apples";
    let sel: Select = Select::parse(sql).unwrap();
    let expected = Select {
        name: "apples".to_owned(),
        columns: vec!["name".to_owned(), "description".to_owned()],
    };
    assert_eq!(sel, expected);
}

#[test]
fn sql_select_is_case_insensitive() {
    let sel = Select::parse("select Name from T_1").unwrap();
    assert_eq!(sel.name, "T_1");
    assert_eq!(sel.columns, vec!["Name".to_owned()]);
}

#[test]
fn sql_select_tolerates_whitespace() {
    let sel = Select::parse("  select  a ,\tb  from  t  ").unwrap();
    assert_eq!(sel.name, "t");
    assert_eq!(sel.columns, vec!["a".to_owned(), "b".to_owned()]);
}

#[test]
fn sql_select_rejects_other_shapes() {
    assert_eq!(Select::parse("insert into t values (1)"), Err(Error::Syntax));
    assert_eq!(Select::parse("select from t"), Err(Error::Syntax));
    assert_eq!(Select::parse("select a, from t"), Err(Error::Syntax));
    assert_eq!(Select::parse("select a"), Err(Error::Syntax));
    assert_eq!(Select::parse("selectx a from t"), Err(Error::Syntax));
    assert_eq!(Select::parse(""), Err(Error::Syntax));
}

#[test]
fn sql_create_table_without_key() {
    let table = CreateTable::parse("create table t (a int, b text)").unwrap();
    assert_eq!(table.name, "t");
    assert_eq!(table.columns, vec!["a".to_owned(), "b".to_owned()]);
    assert_eq!(table.key, None);
}

#[test]
fn sql_create_table_first_key_wins() {
    let table =
        CreateTable::parse("create table t (a int primary key, b int primary key)").unwrap();
    assert_eq!(table.key, Some("a".to_owned()));
}

#[test]
fn sql_create_table_rejects_other_shapes() {
    assert_eq!(CreateTable::parse("create view v (a)"), Err(Error::Syntax));
    assert_eq!(CreateTable::parse("create table t"), Err(Error::Syntax));
    assert_eq!(CreateTable::parse("create table t ("), Err(Error::Syntax));
    assert_eq!(CreateTable::parse("select a from t"), Err(Error::Syntax));
}

#[test]
fn sql_create_table_without_space_before_paren() {
    let table = CreateTable::parse("create table t(a int)").unwrap();
    assert_eq!(table.name, "t");
    assert_eq!(table.columns, vec!["a".to_owned()]);
}

#[test]
fn sql_create_table_mixed_case_keywords() {
    let table = CreateTable::parse("CrEaTe TaBlE t ( a  int , b text )").unwrap();
    assert_eq!(table.name, "t");
    assert_eq!(table.columns, vec!["a".to_owned(), "b".to_owned()]);
}

#[test]
fn sql_create_table_key_phrase_is_matched_as_written() {
    // the alias phrase is looked for in lower case, as schema text has it
    let lower = CreateTable::parse("create table t (a int primary key)").unwrap();
    assert_eq!(lower.key, Some("a".to_owned()));
    let upper = CreateTable::parse("create table t (a int PRIMARY KEY)").unwrap();
    assert_eq!(upper.key, None);
}

#[test]
fn select_maps_requested_columns_to_declared_positions() {
    let create = CreateTable::parse("create table t (a int, b int, c int)").unwrap();
    let sel = Select::parse("select c, a from t").unwrap();
    assert_eq!(create.select(&sel), vec![2, 0]);
}

#[test]
fn select_drops_unknown_columns() {
    let create = CreateTable::parse("create table t (a int, b int)").unwrap();
    let sel = Select::parse("select a, nosuch, b from t").unwrap();
    assert_eq!(create.select(&sel), vec![0, 1]);
}
