use tinydb::errors::DbErr;
use tinydb::tokenizer::Token;
use tinydb::tokenizer::Tokenizer;

#[test]
fn test_create_table() {
    let tokenizer = Tokenizer::new();
    let tokens = tokenizer.tokenize("CREATE TABLE").unwrap();

    assert_eq!(vec![Token::Create, Token::Table], tokens);
}

#[test]
fn test_delete_table() {
    let tokenizer = Tokenizer::new();
    let tokens = tokenizer.tokenize("delete DELETE TABLE").unwrap();

    assert_eq!(vec![Token::Delete, Token::Delete, Token::Table], tokens);
}

#[test]
fn lexing_is_repeatable() {
    let tokenizer = Tokenizer::new();
    let text = "CREATE TABLE t (a x, b y);";
    let first = tokenizer.tokenize(text).unwrap();
    let second = tokenizer.tokenize(text).unwrap();
    assert_eq!(first, second);
    let third = Tokenizer::new().tokenize(text).unwrap();
    assert_eq!(first, third);
}

#[test]
fn full_statement_token_sequence() {
    let tokenizer = Tokenizer::new();
    let tokens = tokenizer.tokenize("CREATE TABLE t (a x, b y);").unwrap();

    assert_eq!(
        vec![
            Token::Create,
            Token::Table,
            Token::Identifier(String::from("t")),
            Token::OpenBracket,
            Token::Identifier(String::from("a")),
            Token::Identifier(String::from("x")),
            Token::Comma,
            Token::Identifier(String::from("b")),
            Token::Identifier(String::from("y")),
            Token::CloseBracket,
            Token::SemiColon,
        ],
        tokens
    );
}

#[test]
fn keywords_fold_case_and_whitespace_is_skipped() {
    let tokenizer = Tokenizer::new();
    let tokens = tokenizer.tokenize("  create \t TaBlE \n foo  ").unwrap();
    assert_eq!(
        vec![Token::Create, Token::Table, Token::Identifier(String::from("foo"))],
        tokens
    );
}

#[test]
fn unparseable_character_position() {
    let tokenizer = Tokenizer::new();
    let err = tokenizer.tokenize("CREATE !").unwrap_err();
    assert_eq!(DbErr::UnparseableInput(7), err);
}
