use tinydb::database::Database;
use tinydb::errors::DbErr;
use tinydb::queries::query_parser::execute_query;
use tinydb::tokenizer::TokenKind;

#[test]
fn test_create_parser() {
    let mut database = Database::new();
    let result = execute_query(&mut database, "CREATE TABLE apple (age INTEGER);");
    let table = database.get_table("apple");

    assert!(result.is_ok());
    assert!(table.is_some());
    assert_eq!(String::from("age"), table.unwrap().columns[0].column_name);
    assert_eq!(String::from("INTEGER"), table.unwrap().columns[0].column_type);
}

#[test]
fn test_create_parser_multiple_columns() {
    let mut database = Database::new();
    let result = execute_query(&mut database, "CREATE TABLE apple (name STRING, age INTEGER);");
    let table = database.get_table("apple");

    assert!(result.is_ok());
    assert!(table.is_some());

    assert_eq!(String::from("name"), table.unwrap().columns[0].column_name);
    assert_eq!(String::from("STRING"), table.unwrap().columns[0].column_type);

    assert_eq!(String::from("age"), table.unwrap().columns[1].column_name);
    assert_eq!(String::from("INTEGER"), table.unwrap().columns[1].column_type);
}

#[test]
fn test_create_parser_errors() {
    let mut database = Database::new();

    assert!(execute_query(&mut database, "CREATE TABLE apple (;").is_err());
    assert!(execute_query(&mut database, "CREATE TABLE apple ();").is_err());
    assert!(execute_query(&mut database, "CREATE TABLE apple (something one two);").is_err());
    assert!(execute_query(&mut database, "CREATE TABLE apple (, one, two);").is_err());
    assert!(execute_query(&mut database, "CREATE TABLE apple (, one, two_));").is_err());
    assert!(execute_query(&mut database, "CREATE TABLE apple (one two));").is_err());
    assert!(execute_query(&mut database, "CREATE TABLE apple ((one two);").is_err());
}

#[test]
fn test_delete_parser() {
    let mut database = Database::new();
    let _ = database.create_table("apple", Vec::new());
    let _ = execute_query(&mut database, "DELETE TABLE apple");

    let table = database.get_table("apple");

    assert!(table.is_none());
}

#[test]
fn best_progress_error_is_selected() {
    let mut database = Database::new();

    // The create grammar reads three tokens before the mismatch; the
    // delete grammar fails on its first. The deeper diagnostic wins.
    let err = execute_query(&mut database, "CREATE TABLE table;").unwrap_err();
    assert_eq!(
        DbErr::NoGrammarMatched(Box::new(DbErr::KindMismatch {
            expected: TokenKind::Identifier,
            got: TokenKind::Table,
        })),
        err
    );
}

#[test]
fn unterminated_list_surfaces_as_end_of_stream() {
    let mut database = Database::new();

    // The missing closing bracket is not its own error: the capture step
    // silently exhausts the stream and the following semicolon step fails.
    let err = execute_query(&mut database, "CREATE TABLE apple (;").unwrap_err();
    assert_eq!(DbErr::NoGrammarMatched(Box::new(DbErr::EndOfStream)), err);
}

#[test]
fn empty_input_keeps_fallback_diagnostic() {
    let mut database = Database::new();

    // Both grammars fail at progress zero, which never beats the initial
    // diagnostic under the strict comparison.
    let err = execute_query(&mut database, "").unwrap_err();
    assert_eq!(
        DbErr::NoGrammarMatched(Box::new(DbErr::Generic(String::from("Unknown error")))),
        err
    );
}

#[test]
fn lex_failure_reported_before_any_grammar() {
    let mut database = Database::new();
    let err = execute_query(&mut database, "CREATE TABLE apple (age INTEGER)!").unwrap_err();
    assert_eq!(DbErr::UnparseableInput(32), err);
}

#[test]
fn create_then_delete_round_trip() {
    let mut database = Database::new();
    assert!(execute_query(&mut database, "CREATE TABLE pear (kind STRING);").is_ok());
    assert!(database.get_table("pear").is_some());
    assert!(execute_query(&mut database, "DELETE TABLE pear").is_ok());
    assert!(database.get_table("pear").is_none());
}
