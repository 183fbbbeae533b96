use tinydb::database::Database;
use tinydb::errors::DbErr;
use tinydb::queries::query_parser;

#[test]
fn delete_table_valid() {
    let mut database = Database::new();
    database.create_table("users", Vec::new()).unwrap();

    assert!(query_parser::execute_query(&mut database, "DELETE TABLE users;").is_ok());
}

#[test]
fn delete_nonexistant_table() {
    let mut database = Database::new();
    assert!(query_parser::execute_query(&mut database, "DELETE TABLE users;").is_err());
}

#[test]
fn delete_missing_table_error_value() {
    let mut database = Database::new();
    assert_eq!(
        DbErr::TableNotExists,
        query_parser::execute_query(&mut database, "DELETE TABLE users;").unwrap_err(),
    );
}
