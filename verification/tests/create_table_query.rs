use tinydb::database::Database;
use tinydb::errors::DbErr;
use tinydb::queries::query_parser;

#[test]
fn create_table_with_columns() {
    let mut database = Database::new();

    assert!(
        query_parser::execute_query(&mut database, "CREATE TABLE users (name string, age i32);")
            .is_ok()
    );

    let table = database.get_table("users").unwrap();
    let col1 = table.columns.get(0).unwrap();
    let col2 = table.columns.get(1).unwrap();

    assert_eq!("name", col1.column_name);
    assert_eq!("string", col1.column_type);

    assert_eq!("age", col2.column_name);
    assert_eq!("i32", col2.column_type);
}

#[test]
fn create_table_twice() {
    let mut database = Database::new();
    assert!(query_parser::execute_query(&mut database, "CREATE TABLE users (name string);").is_ok());
    assert_eq!(
        DbErr::TableAlreadyExists,
        query_parser::execute_query(&mut database, "CREATE TABLE users (name string);")
            .unwrap_err(),
    );
}

#[test]
fn second_create_leaves_store_unchanged() {
    let mut database = Database::new();
    let _ = query_parser::execute_query(&mut database, "CREATE TABLE apple (age INTEGER);");
    let _ = query_parser::execute_query(&mut database, "CREATE TABLE apple (age INTEGER);");

    let table = database.get_table("apple").unwrap();
    assert_eq!(1, table.columns.len());
    assert_eq!("age", table.columns[0].column_name);
    assert_eq!("INTEGER", table.columns[0].column_type);
    assert_eq!(0, table.rows.len());
}

#[test]
fn malformed_column_list_error() {
    let mut database = Database::new();
    assert_eq!(
        DbErr::MalformedColumnList,
        query_parser::execute_query(&mut database, "CREATE TABLE apple ();").unwrap_err(),
    );
    assert!(database.get_table("apple").is_none());
}
