use tinydb::database::ColumnDescription;
use tinydb::database::Database;
use tinydb::database::FieldValue;
use tinydb::database::Table;

#[test]
fn create_first_table() {
    let mut database = Database::new();
    assert!(database.create_table("new_table", Vec::new()).is_ok())
}

#[test]
fn error_overwrite_table() {
    let mut database = Database::new();

    let _ = database.create_table("new_table", Vec::new());
    assert!(database.create_table("new_table", Vec::new()).is_err())
}

#[test]
fn delete_table() {
    let mut database = Database::new();
    let _ = database.create_table("table1", Vec::new());
    assert!(database.delete_table("table1").is_ok())
}

#[test]
fn delete_missing_table() {
    let mut database = Database::new();
    assert!(database.delete_table("missing_table").is_err())
}

#[test]
fn table_rows_and_fields() {
    let columns = vec![ColumnDescription {
        column_name: String::from("age"),
        column_type: String::from("i32"),
    }];
    let mut table = Table::from_column_definition(columns);
    assert_eq!(1, table.columns.len());
    assert_eq!(0, table.rows.len());

    table.insert_row(vec![FieldValue::I32(7)]);
    table.insert_row(vec![FieldValue::I32(9)]);
    assert_eq!(2, table.rows.len());

    table.rows[0].set_field(0, FieldValue::I32(11));
    assert_eq!(FieldValue::I32(11), table.rows[0].fields[0]);

    table.delete_row(0);
    assert_eq!(1, table.rows.len());
    assert_eq!(FieldValue::I32(9), table.rows[0].fields[0]);
}

#[test]
fn deleted_table_is_returned() {
    let mut database = Database::new();
    let columns = vec![ColumnDescription {
        column_name: String::from("name"),
        column_type: String::from("string"),
    }];
    let _ = database.create_table("users", columns);
    let table = database.delete_table("users").unwrap();
    assert_eq!("name", table.columns[0].column_name);
    assert_eq!("string", table.columns[0].column_type);
    assert!(database.get_table("users").is_none());
}
